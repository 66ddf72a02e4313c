//! The request dispatcher's configuration: what a sender is made from, how it
//! is validated, and in which order its parts are set up.
//!
//! Building a sender takes two pieces of outside work: creating the HTTP
//! client, and one probe request that shows that the target answers. The
//! builder does neither. [`SenderBuilder::build`] is told what is known so
//! far and answers with the next thing to do, with the finished sender, or
//! with the reason why there will be none.

use vstd::prelude::*;
use vstd::string::*;
use reqwest::Method;
use std::str::FromStr;

verus! {

/// An HTTP request method, as the HTTP client takes it.
#[verifier::external_type_specification]
#[verifier::external_body]
pub struct ExMethod(reqwest::Method);

/// `c` may stand in an HTTP token: a letter, a digit, or one of
/// ``! # $ % & ' * + - . ^ _ ` | ~``.
pub open spec fn is_token_char(c: char) -> bool {
    ||| 'a' <= c <= 'z'
    ||| 'A' <= c <= 'Z'
    ||| '0' <= c <= '9'
    ||| c == '!'
    ||| c == '#'
    ||| c == '$'
    ||| c == '%'
    ||| c == '&'
    ||| c == '\''
    ||| c == '*'
    ||| c == '+'
    ||| c == '-'
    ||| c == '.'
    ||| c == '^'
    ||| c == '_'
    ||| c == '`'
    ||| c == '|'
    ||| c == '~'
}

/// `text` is an HTTP method: a token of at least one character. Case
/// matters and nothing is trimmed, so `"GET"` and `"get"` are both methods,
/// and `"GET "` is none.
pub open spec fn is_method_token(text: Seq<char>) -> bool {
    text.len() > 0 && forall|i: int| 0 <= i < text.len() ==> is_token_char(#[trigger] text[i])
}

/// The method that `reqwest::Method::from_str` makes of `text`, if it makes
/// one.
pub uninterp spec fn parsed_method(text: Seq<char>) -> Option<Method>;

/// `reqwest::Method::from_str`: parses `text` as an HTTP method. It accepts
/// the standard methods and every other token, and refuses the empty string
/// and a string with a character that no token may hold. What it returns
/// depends on the text alone.
#[verifier::external_body]
fn parse_method(text: &str) -> (method: Option<Method>)
    ensures
        method == parsed_method(text@),
        method is Some <==> is_method_token(text@),
{
    Method::from_str(text).ok()
}

/// Why a sender could not be built.
#[derive(Clone, Copy, Debug, PartialEq, Eq, Structural)]
pub enum SenderBuilderError {
    InvalidHTTPMethod,
    Builder,
    HostUnreachable,
}

impl SenderBuilderError {
    pub fn as_str(&self) -> (message: &'static str)
        ensures
            *self == SenderBuilderError::InvalidHTTPMethod ==> message@
                == "Method specified is not a valid HTTP method"@,
            *self == SenderBuilderError::Builder ==> message@
                == "TLS backend cannot be initialized, or the resolver cannot load the system configuration"@,
            *self == SenderBuilderError::HostUnreachable ==> message@
                == "Specified host is unreachable"@,
    {
        match self {
            SenderBuilderError::InvalidHTTPMethod => "Method specified is not a valid HTTP method",
            SenderBuilderError::Builder => "TLS backend cannot be initialized, or the resolver cannot load the system configuration",
            SenderBuilderError::HostUnreachable => "Specified host is unreachable",
        }
    }
}

/// What every request of a run is sent with.
#[derive(Clone, Debug)]
pub struct SenderArgs {
    pub user_agent: String,
    /// Per-request timeout in milliseconds.
    pub request_timeout: u64,
    /// The URL template.
    pub url: String,
    pub follow_redirect: bool,
    pub method: String,
}

/// The mathematical content of [`SenderArgs`].
pub struct SenderArgsView {
    pub user_agent: Seq<char>,
    pub request_timeout: u64,
    pub url: Seq<char>,
    pub follow_redirect: bool,
    pub method: Seq<char>,
}

impl View for SenderArgs {
    type V = SenderArgsView;

    open spec fn view(&self) -> SenderArgsView {
        SenderArgsView {
            user_agent: self.user_agent@,
            request_timeout: self.request_timeout,
            url: self.url@,
            follow_redirect: self.follow_redirect,
            method: self.method@,
        }
    }
}

/// What the client does with a redirect: it follows every one, or none.
#[derive(Clone, Copy, Debug, PartialEq, Eq, Structural)]
pub enum RedirectPolicy {
    FollowAll,
    FollowNone,
}

/// The settings of the HTTP client that a sender needs.
#[derive(Clone, Debug)]
pub struct ClientSettings {
    pub timeout_ms: u64,
    pub user_agent: String,
    pub redirect: RedirectPolicy,
}

/// What the outside work for a sender has shown so far. `None` stands for
/// work that has not been done yet.
#[derive(Clone, Copy, Debug, PartialEq, Eq, Structural)]
pub struct Observed {
    /// Whether the HTTP client could be created.
    pub client_ready: Option<bool>,
    /// Whether the probe request was answered.
    pub host_reachable: Option<bool>,
}

/// A validated request configuration. The HTTP client that goes with it is
/// kept by whoever sends the requests.
#[derive(Debug)]
pub struct Sender {
    pub args: SenderArgs,
    pub method: Method,
}

/// What comes next on the way to a sender.
#[derive(Debug)]
pub enum BuildStep {
    /// Create the HTTP client with these settings.
    CreateClient(ClientSettings),
    /// Send one request to this URL and see whether an answer comes.
    Probe(String),
    /// Nothing: the sender is ready.
    Ready(Sender),
}

/// Collects what a sender is made from.
#[derive(Clone, Debug)]
pub struct SenderBuilder {
    user_agent: String,
    request_timeout: u64,
    url: Option<String>,
    follow_redirect: bool,
    method: String,
}

/// The mathematical content of a [`SenderBuilder`].
pub struct SenderBuilderView {
    pub user_agent: Seq<char>,
    pub request_timeout: u64,
    pub url: Option<Seq<char>>,
    pub follow_redirect: bool,
    pub method: Seq<char>,
}

impl View for SenderBuilder {
    type V = SenderBuilderView;

    closed spec fn view(&self) -> SenderBuilderView {
        SenderBuilderView {
            user_agent: self.user_agent@,
            request_timeout: self.request_timeout,
            url: match self.url {
                Some(url) => Some(url@),
                None => None,
            },
            follow_redirect: self.follow_redirect,
            method: self.method@,
        }
    }
}

/// The redirect policy that a follow-redirect flag asks for.
pub open spec fn redirect_policy_for(follow_redirect: bool) -> RedirectPolicy {
    if follow_redirect {
        RedirectPolicy::FollowAll
    } else {
        RedirectPolicy::FollowNone
    }
}

/// The step that follows from a builder's content and what has been
/// observed, provided that the method is valid.
pub open spec fn is_next_step(builder: SenderBuilderView, observed: Observed, step: BuildStep) -> bool {
    match observed.client_ready {
        None => step matches BuildStep::CreateClient(settings) && settings.timeout_ms
            == builder.request_timeout && settings.user_agent@ == builder.user_agent
            && settings.redirect == redirect_policy_for(builder.follow_redirect),
        Some(_) => match observed.host_reachable {
            None => step matches BuildStep::Probe(url) && Some(url@) == builder.url,
            Some(_) => step matches BuildStep::Ready(sender) && sender.args@ == (SenderArgsView {
                user_agent: builder.user_agent,
                request_timeout: builder.request_timeout,
                url: builder.url->0,
                follow_redirect: builder.follow_redirect,
                method: builder.method,
            }) && Some(sender.method) == parsed_method(builder.method),
        },
    }
}

/// The error that ends the building of a sender, if any: an invalid method
/// before anything else, then a client that could not be created, then a
/// host that did not answer.
pub open spec fn build_error(builder: SenderBuilderView, observed: Observed) -> Option<
    SenderBuilderError,
> {
    if !is_method_token(builder.method) {
        Some(SenderBuilderError::InvalidHTTPMethod)
    } else if observed.client_ready == Some(false) {
        Some(SenderBuilderError::Builder)
    } else if observed.client_ready == Some(true) && observed.host_reachable == Some(false) {
        Some(SenderBuilderError::HostUnreachable)
    } else {
        None
    }
}

impl SenderBuilder {
    /// A builder with the defaults: user agent `rake/1.0`, a timeout of five
    /// seconds, no URL, no redirects followed, method `GET`.
    pub fn new() -> (builder: SenderBuilder)
        ensures
            builder@ == (SenderBuilderView {
                user_agent: "rake/1.0"@,
                request_timeout: 5000,
                url: None,
                follow_redirect: false,
                method: "GET"@,
            }),
    {
        SenderBuilder {
            user_agent: "rake/1.0".to_string(),
            request_timeout: 5000,
            url: None,
            follow_redirect: false,
            method: "GET".to_string(),
        }
    }

    pub fn with_user_agent(self, user_agent: &str) -> (builder: SenderBuilder)
        ensures
            builder@ == (SenderBuilderView { user_agent: user_agent@, ..self@ }),
    {
        SenderBuilder {
            user_agent: user_agent.to_string(),
            request_timeout: self.request_timeout,
            url: self.url,
            follow_redirect: self.follow_redirect,
            method: self.method,
        }
    }

    pub fn with_request_timeout(self, request_timeout: u64) -> (builder: SenderBuilder)
        ensures
            builder@ == (SenderBuilderView { request_timeout, ..self@ }),
    {
        SenderBuilder {
            user_agent: self.user_agent,
            request_timeout,
            url: self.url,
            follow_redirect: self.follow_redirect,
            method: self.method,
        }
    }

    pub fn with_url(self, url: String) -> (builder: SenderBuilder)
        ensures
            builder@ == (SenderBuilderView { url: Some(url@), ..self@ }),
    {
        SenderBuilder {
            user_agent: self.user_agent,
            request_timeout: self.request_timeout,
            url: Some(url),
            follow_redirect: self.follow_redirect,
            method: self.method,
        }
    }

    pub fn with_follow_redirect(self, follow_redirect: bool) -> (builder: SenderBuilder)
        ensures
            builder@ == (SenderBuilderView { follow_redirect, ..self@ }),
    {
        SenderBuilder {
            user_agent: self.user_agent,
            request_timeout: self.request_timeout,
            url: self.url,
            follow_redirect,
            method: self.method,
        }
    }

    pub fn with_method(self, method: &str) -> (builder: SenderBuilder)
        ensures
            builder@ == (SenderBuilderView { method: method@, ..self@ }),
    {
        SenderBuilder {
            user_agent: self.user_agent,
            request_timeout: self.request_timeout,
            url: self.url,
            follow_redirect: self.follow_redirect,
            method: method.to_string(),
        }
    }

    /// Whether a URL has been set.
    pub fn has_url(&self) -> (set: bool)
        ensures
            set == self@.url is Some,
    {
        self.url.is_some()
    }

    /// The next step towards a sender, given what has been observed.
    ///
    /// The method is validated first, whatever has been observed. With a
    /// valid method the client is asked for, then the probe, and once both
    /// have succeeded the sender is handed out. A client that could not be
    /// created and a host that did not answer end the building.
    pub fn build(&self, observed: &Observed) -> (result: Result<BuildStep, SenderBuilderError>)
        requires
            self@.url is Some,
        ensures
            match build_error(self@, *observed) {
                Some(error) => result == Err::<BuildStep, SenderBuilderError>(error),
                None => result matches Ok(step) && is_next_step(self@, *observed, step),
            },
    {
        let method = match parse_method(self.method.as_str()) {
            Some(method) => method,
            None => {
                return Err(SenderBuilderError::InvalidHTTPMethod);
            },
        };
        match observed.client_ready {
            None => {
                let redirect = if self.follow_redirect {
                    RedirectPolicy::FollowAll
                } else {
                    RedirectPolicy::FollowNone
                };
                Ok(
                    BuildStep::CreateClient(
                        ClientSettings {
                            timeout_ms: self.request_timeout,
                            user_agent: self.user_agent.clone(),
                            redirect,
                        },
                    ),
                )
            },
            Some(false) => Err(SenderBuilderError::Builder),
            Some(true) => {
                let url = match &self.url {
                    Some(url) => url.clone(),
                    None => String::new(),
                };
                match observed.host_reachable {
                    None => Ok(BuildStep::Probe(url)),
                    Some(false) => Err(SenderBuilderError::HostUnreachable),
                    Some(true) => Ok(
                        BuildStep::Ready(
                            Sender {
                                args: SenderArgs {
                                    user_agent: self.user_agent.clone(),
                                    request_timeout: self.request_timeout,
                                    url,
                                    follow_redirect: self.follow_redirect,
                                    method: self.method.clone(),
                                },
                                method,
                            },
                        ),
                    ),
                }
            },
        }
    }
}

impl Default for SenderBuilder {
    fn default() -> (builder: SenderBuilder)
        ensures
            builder@ == (SenderBuilderView {
                user_agent: "rake/1.0"@,
                request_timeout: 5000,
                url: None,
                follow_redirect: false,
                method: "GET"@,
            }),
    {
        SenderBuilder::new()
    }
}

} // verus!
