use vstd::prelude::*;
use vstd::string::*;

use crate::domain::SubscriberEmail;

verus! {

/// One outbound email, as handed to the mail gateway.
pub struct EmailMessage {
    pub from: String,
    pub to: String,
    pub subject: String,
    pub html_body: String,
    pub text_body: String,
}

/// The mathematical value of an email: its five fields.
pub struct EmailView {
    pub from: Seq<char>,
    pub to: Seq<char>,
    pub subject: Seq<char>,
    pub html_body: Seq<char>,
    pub text_body: Seq<char>,
}

impl View for EmailMessage {
    type V = EmailView;

    open spec fn view(&self) -> EmailView {
        EmailView {
            from: self.from@,
            to: self.to@,
            subject: self.subject@,
            html_body: self.html_body@,
            text_body: self.text_body@,
        }
    }
}

impl EmailMessage {
    /// A copy of this email, field by field.
    pub fn duplicate(&self) -> (r: EmailMessage)
        ensures
            r@ == self@,
    {
        EmailMessage {
            from: self.from.clone(),
            to: self.to.clone(),
            subject: self.subject.clone(),
            html_body: self.html_body.clone(),
            text_body: self.text_body.clone(),
        }
    }
}

/// Path of the gateway's send endpoint, relative to its base URL.
pub open spec fn email_path() -> Seq<char> {
    "/email"@
}

pub open spec fn email_endpoint_of(base_url: Seq<char>) -> Seq<char> {
    base_url + email_path()
}

pub open spec fn confirm_path() -> Seq<char> {
    "/subscriptions/confirm?subscription_token="@
}

/// `<base_url>/subscriptions/confirm?subscription_token=<token>`.
pub open spec fn confirmation_link_of(base_url: Seq<char>, token: Seq<char>) -> Seq<char> {
    base_url + confirm_path() + token
}

pub open spec fn welcome_subject() -> Seq<char> {
    "Welcome!"@
}

pub open spec fn welcome_html(link: Seq<char>) -> Seq<char> {
    "Welcome!<br />Click <a href=\""@ + link + "\">here</a> to confirm your subscription"@
}

pub open spec fn welcome_text(link: Seq<char>) -> Seq<char> {
    "Welcome welcome!Visit "@ + link + " to confirm your subscription"@
}

/// The confirmation email sent to a new subscriber.
pub open spec fn confirmation_email_of(
    from: Seq<char>,
    to: Seq<char>,
    base_url: Seq<char>,
    token: Seq<char>,
) -> EmailView {
    let link = confirmation_link_of(base_url, token);
    EmailView {
        from,
        to,
        subject: welcome_subject(),
        html_body: welcome_html(link),
        text_body: welcome_text(link),
    }
}

/// URL of the gateway's send endpoint.
pub fn email_endpoint(base_url: &str) -> (r: String)
    ensures
        r@ == email_endpoint_of(base_url@),
{
    String::from_str(base_url).concat("/email")
}

pub fn confirmation_link(base_url: &str, token: &str) -> (r: String)
    ensures
        r@ == confirmation_link_of(base_url@, token@),
{
    String::from_str(base_url).concat("/subscriptions/confirm?subscription_token=").concat(token)
}

/// An email with the given fields, from `sender` to `to`.
pub fn compose_email(
    sender: &SubscriberEmail,
    to: &SubscriberEmail,
    subject: &str,
    html_body: &str,
    text_body: &str,
) -> (r: EmailMessage)
    ensures
        r@ == (EmailView {
            from: sender@,
            to: to@,
            subject: subject@,
            html_body: html_body@,
            text_body: text_body@,
        }),
{
    EmailMessage {
        from: String::from_str(sender.as_str()),
        to: String::from_str(to.as_str()),
        subject: String::from_str(subject),
        html_body: String::from_str(html_body),
        text_body: String::from_str(text_body),
    }
}

/// The welcome email that carries the confirmation link for `token`.
pub fn confirmation_email(
    sender: &SubscriberEmail,
    to: &SubscriberEmail,
    base_url: &str,
    token: &str,
) -> (r: EmailMessage)
    ensures
        r@ == confirmation_email_of(sender@, to@, base_url@, token@),
{
    let link = confirmation_link(base_url, token);
    let html = String::from_str("Welcome!<br />Click <a href=\"").concat(link.as_str()).concat(
        "\">here</a> to confirm your subscription",
    );
    let text = String::from_str("Welcome welcome!Visit ").concat(link.as_str()).concat(
        " to confirm your subscription",
    );
    compose_email(sender, to, "Welcome!", html.as_str(), text.as_str())
}

} // verus!
