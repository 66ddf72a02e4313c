use rake::url::substitute;
use rake::url::Url;

#[test]
fn payload_replaces_the_placeholder() {
    assert_eq!(substitute("http://x/{}", "admin"), "http://x/admin");
}

#[test]
fn plain_payload_round_trips_into_the_path() {
    for payload in ["admin", "login", "a", "index.html", "some-long_payload123"] {
        let url = substitute("http://target/{}", payload);
        assert_eq!(url, format!("http://target/{}", payload));
        assert_eq!(&url["http://target/".len()..], payload);
    }
}

#[test]
fn every_placeholder_is_replaced() {
    assert_eq!(substitute("http://{}.x/{}?q={}", "a"), "http://a.x/a?q=a");
    assert_eq!(substitute("{}{}", "ab"), "abab");
}

#[test]
fn placeholder_in_the_middle() {
    assert_eq!(substitute("http://x/{}/index.html", "dir"), "http://x/dir/index.html");
}

#[test]
fn template_without_placeholder_is_unchanged() {
    assert_eq!(substitute("http://x/", "admin"), "http://x/");
    assert_eq!(substitute("", "admin"), "");
}

#[test]
fn empty_payload_is_substituted_literally() {
    assert_eq!(substitute("http://x/{}", ""), "http://x/");
}

#[test]
fn lone_braces_are_kept() {
    assert_eq!(substitute("a{b}c", "X"), "a{b}c");
    assert_eq!(substitute("a{", "X"), "a{");
    assert_eq!(substitute("}a{", "X"), "}a{");
    assert_eq!(substitute("{ }", "X"), "{ }");
}

#[test]
fn doubled_braces() {
    assert_eq!(substitute("{{}}", "X"), "{X}");
    assert_eq!(substitute("{{}", "X"), "{X");
    assert_eq!(substitute("{}}", "X"), "X}");
    assert_eq!(substitute("{{{", "X"), "{{{");
}

#[test]
fn payload_is_not_searched_for_placeholders() {
    assert_eq!(substitute("a{}b", "{}"), "a{}b");
    assert_eq!(substitute("{}}", "{"), "{}");
}

#[test]
fn substitution_agrees_with_replace() {
    for template in ["http://x/{}", "{}", "{{}}", "a{}b{}c", "{", "}", "{}{", "x{y}z{}"] {
        for payload in ["", "p", "{}", "{", "}", "ab cd", "é"] {
            assert_eq!(substitute(template, payload), template.replace("{}", payload));
        }
    }
}

#[test]
fn url_template_resolves_payloads() {
    let url = Url::new(&String::from("http://x/{}"));
    assert_eq!(url.str, "http://x/{}");
    assert!(url.has_placeholder());
    assert_eq!(url.resolve("admin"), "http://x/admin");
}

#[test]
fn url_template_knows_whether_it_has_a_placeholder() {
    assert!(!Url::new(&String::from("http://x/")).has_placeholder());
    assert!(!Url::new(&String::from("")).has_placeholder());
    assert!(!Url::new(&String::from("{ }")).has_placeholder());
    assert!(!Url::new(&String::from("}{")).has_placeholder());
    assert!(Url::new(&String::from("{}")).has_placeholder());
    assert!(Url::new(&String::from("{{}")).has_placeholder());
    assert!(Url::new(&String::from("a/{}/b")).has_placeholder());
}
