use z2p::domain::SubscriberEmail;
use z2p::email::{compose_email, confirmation_email, confirmation_link, email_endpoint};

fn addr(s: &str) -> SubscriberEmail {
    SubscriberEmail::parse(s.to_string()).unwrap()
}

#[test]
fn the_gateway_endpoint_is_under_its_base_url() {
    assert_eq!(email_endpoint("http://127.0.0.1:9000"), "http://127.0.0.1:9000/email");
}

#[test]
fn the_confirmation_link_carries_the_token() {
    assert_eq!(
        confirmation_link("http://localhost:8000", "abc123"),
        "http://localhost:8000/subscriptions/confirm?subscription_token=abc123"
    );
}

#[test]
fn the_confirmation_email_holds_the_link_in_both_bodies() {
    let m = confirmation_email(&addr("news@z2p.com"), &addr("tdnb@hello.com"), "http://x", "tok");
    let link = "http://x/subscriptions/confirm?subscription_token=tok";
    assert_eq!(m.from, "news@z2p.com");
    assert_eq!(m.to, "tdnb@hello.com");
    assert_eq!(m.subject, "Welcome!");
    assert_eq!(
        m.html_body,
        format!("Welcome!<br />Click <a href=\"{}\">here</a> to confirm your subscription", link)
    );
    assert_eq!(m.text_body, format!("Welcome welcome!Visit {} to confirm your subscription", link));
}

#[test]
fn a_composed_email_keeps_its_fields() {
    let m = compose_email(&addr("a@b.com"), &addr("c@d.com"), "S", "<p>H</p>", "T");
    let d = m.duplicate();
    for x in [&m, &d] {
        assert_eq!(x.from, "a@b.com");
        assert_eq!(x.to, "c@d.com");
        assert_eq!(x.subject, "S");
        assert_eq!(x.html_body, "<p>H</p>");
        assert_eq!(x.text_body, "T");
    }
}
