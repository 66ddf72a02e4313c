use rake::sender::BuildStep;
use rake::sender::Observed;
use rake::sender::RedirectPolicy;
use rake::sender::SenderBuilder;
use rake::sender::SenderBuilderError;

fn nothing() -> Observed {
    Observed { client_ready: None, host_reachable: None }
}

fn builder() -> SenderBuilder {
    SenderBuilder::new().with_url(String::from("http://target/{}"))
}

fn error_of(result: Result<BuildStep, SenderBuilderError>) -> Option<SenderBuilderError> {
    match result {
        Ok(_) => None,
        Err(e) => Some(e),
    }
}

#[test]
fn error_messages() {
    assert_eq!(SenderBuilderError::InvalidHTTPMethod.as_str(), "Method specified is not a valid HTTP method");
    assert_eq!(
        SenderBuilderError::Builder.as_str(),
        "TLS backend cannot be initialized, or the resolver cannot load the system configuration"
    );
    assert_eq!(SenderBuilderError::HostUnreachable.as_str(), "Specified host is unreachable");
}

#[test]
fn defaults_ask_for_a_client_with_default_settings() {
    match builder().build(&nothing()) {
        Ok(BuildStep::CreateClient(settings)) => {
            assert_eq!(settings.timeout_ms, 5000);
            assert_eq!(settings.user_agent, "rake/1.0");
            assert_eq!(settings.redirect, RedirectPolicy::FollowNone);
        }
        _ => panic!("expected a request for the client"),
    }
}

#[test]
fn default_builder_has_no_url() {
    assert!(!SenderBuilder::new().has_url());
    assert!(!SenderBuilder::default().has_url());
    assert!(builder().has_url());
}

#[test]
fn settings_follow_the_builder() {
    let b = builder().with_user_agent("agent/2").with_request_timeout(250).with_follow_redirect(true);
    match b.build(&nothing()) {
        Ok(BuildStep::CreateClient(settings)) => {
            assert_eq!(settings.timeout_ms, 250);
            assert_eq!(settings.user_agent, "agent/2");
            assert_eq!(settings.redirect, RedirectPolicy::FollowAll);
        }
        _ => panic!("expected a request for the client"),
    }
}

#[test]
fn probe_follows_the_client() {
    let observed = Observed { client_ready: Some(true), host_reachable: None };
    match builder().build(&observed) {
        Ok(BuildStep::Probe(url)) => assert_eq!(url, "http://target/{}"),
        _ => panic!("expected a probe"),
    }
}

#[test]
fn sender_follows_the_probe() {
    let observed = Observed { client_ready: Some(true), host_reachable: Some(true) };
    let b = builder().with_method("POST").with_user_agent("ua").with_request_timeout(9).with_follow_redirect(true);
    match b.build(&observed) {
        Ok(BuildStep::Ready(sender)) => {
            assert_eq!(sender.args.url, "http://target/{}");
            assert_eq!(sender.args.method, "POST");
            assert_eq!(sender.args.user_agent, "ua");
            assert_eq!(sender.args.request_timeout, 9);
            assert!(sender.args.follow_redirect);
            assert_eq!(sender.method.as_str(), "POST");
        }
        _ => panic!("expected the sender"),
    }
}

#[test]
fn failed_client_ends_the_building() {
    let observed = Observed { client_ready: Some(false), host_reachable: None };
    assert_eq!(error_of(builder().build(&observed)), Some(SenderBuilderError::Builder));
    let observed = Observed { client_ready: Some(false), host_reachable: Some(true) };
    assert_eq!(error_of(builder().build(&observed)), Some(SenderBuilderError::Builder));
}

#[test]
fn unreachable_host_ends_the_building() {
    let observed = Observed { client_ready: Some(true), host_reachable: Some(false) };
    assert_eq!(error_of(builder().build(&observed)), Some(SenderBuilderError::HostUnreachable));
}

#[test]
fn invalid_method_is_refused_before_anything_else() {
    for method in ["", "GE T", "GET ", " GET", "G\nET", "GET/", "métho", "a(b)", "x:y", "[GET]", "\"GET\""] {
        for observed in [
            nothing(),
            Observed { client_ready: Some(true), host_reachable: None },
            Observed { client_ready: Some(false), host_reachable: None },
            Observed { client_ready: Some(true), host_reachable: Some(true) },
            Observed { client_ready: Some(true), host_reachable: Some(false) },
        ] {
            let result = builder().with_method(method).build(&observed);
            assert_eq!(error_of(result), Some(SenderBuilderError::InvalidHTTPMethod), "method {:?}", method);
        }
    }
}

#[test]
fn tokens_are_valid_methods() {
    for method in ["GET", "POST", "PUT", "DELETE", "HEAD", "OPTIONS", "CONNECT", "PATCH", "TRACE", "get", "PURGE",
        "M-SEARCH", "a", "!#$%&'*+-.^_`|~", "A_VERY_LONG_EXTENSION_METHOD_NAME_0123456789"] {
        let result = builder().with_method(method).build(&nothing());
        assert!(matches!(result, Ok(BuildStep::CreateClient(_))), "method {:?}", method);
    }
}

#[test]
fn method_of_the_sender_is_the_one_asked_for() {
    let observed = Observed { client_ready: Some(true), host_reachable: Some(true) };
    for method in ["GET", "HEAD", "PURGE", "get"] {
        match builder().with_method(method).build(&observed) {
            Ok(BuildStep::Ready(sender)) => assert_eq!(sender.method.as_str(), method),
            _ => panic!("expected the sender"),
        }
    }
}
