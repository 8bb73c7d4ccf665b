use z2p::confirmation::{confirm, ConfirmError, ConfirmStep, TokenLookup};
use z2p::domain::{FormData, NewSubscriber, SubscriberEmail};
use z2p::email::EmailMessage;
use z2p::newsletter::{newsletter_recipients, publish_newsletter, BodyData, Content, PublishError};
use z2p::store::{StoreAction, SubscriberRecord, SubscriptionStatus, TokenRecord};
use z2p::subscriptions::{
    error_chain_fmt, subscribe, FailureKind, Stage, SubscriberError, SubscriptionPipeline,
};
use z2p::token::is_token_shaped;

const BASE_URL: &str = "http://127.0.0.1:8000";

/// Which request fails, if any.
#[derive(Clone, Copy, PartialEq)]
enum Fail {
    Nothing,
    Begin,
    InsertSubscriber,
    InsertToken,
    SendEmail,
    Commit,
}

/// A store and mail gateway held in memory.
#[derive(Default)]
struct Sim {
    subscribers: Vec<SubscriberRecord>,
    tokens: Vec<TokenRecord>,
    staged_subscribers: Vec<SubscriberRecord>,
    staged_tokens: Vec<TokenRecord>,
    sent: Vec<EmailMessage>,
    actions: usize,
}

impl Sim {
    fn perform(&mut self, action: StoreAction, fail: Fail) -> bool {
        self.actions += 1;
        match action {
            StoreAction::BeginTransaction => {
                self.staged_subscribers.clear();
                self.staged_tokens.clear();
                fail != Fail::Begin
            }
            StoreAction::InsertSubscriber(r) => {
                let taken = self.subscribers.iter().chain(self.staged_subscribers.iter()).any(|x| x.id == r.id);
                if fail == Fail::InsertSubscriber || taken {
                    return false;
                }
                self.staged_subscribers.push(r);
                true
            }
            StoreAction::InsertToken(t) => {
                let taken = self.tokens.iter().chain(self.staged_tokens.iter()).any(|x| x.token == t.token);
                if fail == Fail::InsertToken || taken {
                    return false;
                }
                self.staged_tokens.push(t);
                true
            }
            StoreAction::SendEmail(m) => {
                if fail == Fail::SendEmail {
                    return false;
                }
                self.sent.push(m);
                true
            }
            StoreAction::UpdateStatus(id, status) => {
                for r in self.subscribers.iter_mut().filter(|r| r.id == id) {
                    r.status = status;
                }
                true
            }
            StoreAction::Commit => {
                if fail == Fail::Commit {
                    self.staged_subscribers.clear();
                    self.staged_tokens.clear();
                    return false;
                }
                self.subscribers.append(&mut self.staged_subscribers);
                self.tokens.append(&mut self.staged_tokens);
                true
            }
            StoreAction::Rollback => {
                self.staged_subscribers.clear();
                self.staged_tokens.clear();
                true
            }
        }
    }

    fn lookup(&self, token: &str) -> TokenLookup {
        match self.tokens.iter().find(|t| t.token == token) {
            Some(t) => TokenLookup::Found(t.subscriber_id),
            None => TokenLookup::NotFound,
        }
    }

    fn confirmed_rows(&self) -> Vec<SubscriberRecord> {
        self.subscribers
            .iter()
            .filter(|r| r.status == SubscriptionStatus::Confirmed)
            .map(|r| SubscriberRecord { id: r.id, email: r.email.clone(), name: r.name.clone(), subscribed_at: r.subscribed_at, status: r.status })
            .collect()
    }
}

fn sender() -> SubscriberEmail {
    SubscriberEmail::parse("newsletter@z2p.com".to_string()).unwrap()
}

fn form(name: &str, email: &str) -> FormData {
    FormData { name: name.to_string(), email: email.to_string() }
}

fn drive(mut p: SubscriptionPipeline, sim: &mut Sim, fail: Fail) -> Result<u128, SubscriberError> {
    while let Some(a) = p.pending_action() {
        let ok = sim.perform(a, fail);
        p.advance(ok);
    }
    p.result().unwrap()
}

fn run_subscribe(sim: &mut Sim, name: &str, email: &str, fail: Fail) -> Result<u128, SubscriberError> {
    let p = subscribe(form(name, email), &sender(), BASE_URL)?;
    drive(p, sim, fail)
}

fn token_in_link(m: &EmailMessage) -> String {
    let key = "subscription_token=";
    let start = m.text_body.find(key).unwrap() + key.len();
    m.text_body[start..].split(' ').next().unwrap().to_string()
}

fn issue() -> BodyData {
    BodyData {
        title: "Newsletter #1".to_string(),
        content: Content { text: "Sample newsletter".to_string(), html: "<p>Sample newsletter</p>".to_string() },
    }
}

fn publish(sim: &mut Sim, rows: &Vec<SubscriberRecord>, fail_at: Option<usize>) -> Result<(), PublishError> {
    let mut d = publish_newsletter(rows, &issue(), &sender());
    let mut n = 0;
    while let Some(a) = d.pending_action() {
        let ok = fail_at != Some(n) && sim.perform(a, Fail::Nothing);
        n += 1;
        d.advance(ok);
    }
    d.result().unwrap()
}

#[test]
fn subscriptions_subscribe_returns_200_for_valid_data() {
    let mut sim = Sim::default();
    let r = run_subscribe(&mut sim, "bn", "tdnb@hello.com", Fail::Nothing);
    assert_eq!(r.ok(), Some(sim.subscribers[0].id));
}

#[test]
fn subscribe_persists_the_new_subscriber() {
    let mut sim = Sim::default();
    let id = run_subscribe(&mut sim, "bn", "tdnb@hello.com", Fail::Nothing).ok().unwrap();
    assert_eq!(sim.subscribers.len(), 1);
    let row = &sim.subscribers[0];
    assert_eq!(row.id, id);
    assert_eq!(row.email, "tdnb@hello.com");
    assert_eq!(row.name, "bn");
    assert_eq!(row.status, SubscriptionStatus::PendingConfirmation);
    assert!(row.subscribed_at > 1_600_000_000_000_000);
    assert_eq!(sim.tokens.len(), 1);
    assert_eq!(sim.tokens[0].subscriber_id, id);
}

#[test]
fn subscribe_sends_a_confirmation_email_for_valid_data() {
    let mut sim = Sim::default();
    run_subscribe(&mut sim, "bn", "tdnb@hello.com", Fail::Nothing).ok().unwrap();
    assert_eq!(sim.sent.len(), 1);
    assert_eq!(sim.sent[0].to, "tdnb@hello.com");
    assert_eq!(sim.sent[0].from, "newsletter@z2p.com");
    assert_eq!(token_in_link(&sim.sent[0]), sim.tokens[0].token);
}

#[test]
fn subscribe_returns_400_when_data_is_empty() {
    for (name, email, what) in [("", "tdbn@gmail.com", "empty name"), ("tdbn", "", "empty email"), ("tdbn", "not-an-email", "invalid email")] {
        match subscribe(form(name, email), &sender(), BASE_URL) {
            Err(e) => {
                assert!(matches!(e, SubscriberError::ValidationError(_)), "{}", what);
                let expected = if name.is_empty() {
                    format!("{} is not a valid subscriber name.", name)
                } else {
                    format!("{} is not a valid subscriber email.", email)
                };
                assert_eq!(e.message(), expected, "{}", what);
                assert_eq!(e.status_code(), 400, "{}", what);
            }
            Ok(_) => panic!("accepted: {}", what),
        }
    }
}

#[test]
fn subscribe_fails_if_there_is_a_fatal_database_error() {
    let mut sim = Sim::default();
    let r = run_subscribe(&mut sim, "bn", "tdnb@hello.com", Fail::InsertToken);
    let e = r.err().unwrap();
    assert!(matches!(e, SubscriberError::StorageError));
    assert_eq!(e.status_code(), 500);
    assert!(sim.subscribers.is_empty());
    assert!(sim.tokens.is_empty());
    assert!(sim.sent.is_empty());
}

#[test]
fn a_gateway_failure_rolls_the_subscription_back() {
    let mut sim = Sim::default();
    let e = run_subscribe(&mut sim, "bn", "tdnb@hello.com", Fail::SendEmail).err().unwrap();
    assert!(matches!(e, SubscriberError::EmailDeliveryError));
    assert_eq!(e.status_code(), 500);
    assert!(sim.subscribers.is_empty() && sim.tokens.is_empty() && sim.sent.is_empty());
    assert!(sim.staged_subscribers.is_empty() && sim.staged_tokens.is_empty());
}

#[test]
fn every_failure_point_leaves_no_rows() {
    for fail in [Fail::Begin, Fail::InsertSubscriber, Fail::InsertToken, Fail::SendEmail, Fail::Commit] {
        let mut sim = Sim::default();
        let r = run_subscribe(&mut sim, "bn", "tdnb@hello.com", fail);
        assert!(r.is_err());
        assert!(sim.subscribers.is_empty() && sim.tokens.is_empty());
        assert!(sim.actions <= 5);
    }
}

#[test]
fn a_failed_begin_makes_no_further_request() {
    let sim = Sim::default();
    let mut p = subscribe(form("bn", "tdnb@hello.com"), &sender(), BASE_URL).ok().unwrap();
    assert_eq!(p.stage(), Stage::Begin);
    p.advance(false);
    assert_eq!(p.stage(), Stage::Done(Some(FailureKind::Storage)));
    assert!(p.pending_action().is_none());
    assert!(matches!(p.result(), Some(Err(SubscriberError::StorageError))));
    assert_eq!(sim.actions, 0);
}

#[test]
fn the_pipeline_walks_its_stages_in_order() {
    let mut p = subscribe(form("bn", "tdnb@hello.com"), &sender(), BASE_URL).ok().unwrap();
    let id = p.subscriber_id();
    assert!(is_token_shaped(p.token()));
    let expected = [Stage::InsertSubscriber, Stage::InsertToken, Stage::SendEmail, Stage::Commit, Stage::Done(None)];
    for s in expected {
        assert!(p.result().is_none());
        p.advance(true);
        assert_eq!(p.stage(), s);
    }
    assert_eq!(p.result().unwrap().ok(), Some(id));
}

#[test]
fn resubscribing_before_confirmation_adds_a_second_pending_row() {
    let mut sim = Sim::default();
    let a = run_subscribe(&mut sim, "bn", "tdnb@hello.com", Fail::Nothing).ok().unwrap();
    let b = run_subscribe(&mut sim, "bn", "tdnb@hello.com", Fail::Nothing).ok().unwrap();
    assert_ne!(a, b);
    assert_eq!(sim.subscribers.len(), 2);
    assert_eq!(sim.tokens.len(), 2);
    assert_ne!(sim.tokens[0].token, sim.tokens[1].token);
}

#[test]
fn the_link_returned_by_subscribe_returns_a_200_if_called() {
    let mut sim = Sim::default();
    let id = run_subscribe(&mut sim, "bn", "tdnb@hello.com", Fail::Nothing).ok().unwrap();
    let token = token_in_link(&sim.sent[0]);
    let step = confirm(sim.lookup(&token));
    assert_eq!(step, ConfirmStep::Confirm(id));
    assert_eq!(step.finish(true), Ok(()));
}

#[test]
fn clicking_a_confirmation_link_confirms_a_subscriber() {
    let mut sim = Sim::default();
    run_subscribe(&mut sim, "bn", "tdnb@hello.com", Fail::Nothing).ok().unwrap();
    let token = token_in_link(&sim.sent[0]);
    let step = confirm(sim.lookup(&token));
    let ok = sim.perform(step.action().unwrap(), Fail::Nothing);
    assert_eq!(step.finish(ok), Ok(()));
    assert_eq!(sim.subscribers[0].email, "tdnb@hello.com");
    assert_eq!(sim.subscribers[0].name, "bn");
    assert_eq!(sim.subscribers[0].status, SubscriptionStatus::Confirmed);
}

#[test]
fn confirming_twice_succeeds_and_changes_nothing() {
    let mut sim = Sim::default();
    run_subscribe(&mut sim, "bn", "tdnb@hello.com", Fail::Nothing).ok().unwrap();
    run_subscribe(&mut sim, "other", "other@hello.com", Fail::Nothing).ok().unwrap();
    let token = token_in_link(&sim.sent[0]);
    for _ in 0..2 {
        let step = confirm(sim.lookup(&token));
        let ok = sim.perform(step.action().unwrap(), Fail::Nothing);
        assert_eq!(step.finish(ok), Ok(()));
        assert_eq!(sim.subscribers[0].status, SubscriptionStatus::Confirmed);
        assert_eq!(sim.subscribers[1].status, SubscriptionStatus::PendingConfirmation);
    }
}

#[test]
fn an_unknown_token_is_unauthorized_and_changes_nothing() {
    let mut sim = Sim::default();
    run_subscribe(&mut sim, "bn", "tdnb@hello.com", Fail::Nothing).ok().unwrap();
    let step = confirm(sim.lookup("aaaaaaaaaaaaaaaaaaaaaaaaa"));
    assert_eq!(step, ConfirmStep::Reject(ConfirmError::Unauthorized));
    assert!(step.action().is_none());
    assert_eq!(step.finish(true), Err(ConfirmError::Unauthorized));
    assert_eq!(ConfirmError::Unauthorized.status_code(), 401);
    assert_eq!(sim.subscribers[0].status, SubscriptionStatus::PendingConfirmation);
}

#[test]
fn a_failed_lookup_or_update_is_a_server_error() {
    let step = confirm(TokenLookup::Failed);
    assert_eq!(step, ConfirmStep::Reject(ConfirmError::StorageError));
    assert_eq!(ConfirmError::StorageError.status_code(), 500);
    assert_eq!(ConfirmStep::Confirm(3).finish(false), Err(ConfirmError::StorageError));
}

#[test]
fn newsletters_are_not_delievered_to_unconfirmed_subscribers() {
    let mut sim = Sim::default();
    run_subscribe(&mut sim, "bn", "tdnb@hello.com", Fail::Nothing).ok().unwrap();
    let before = sim.sent.len();
    let rows = sim.confirmed_rows();
    assert!(publish(&mut sim, &rows, None).is_ok());
    assert_eq!(sim.sent.len(), before);
    // Rows handed over unfiltered are filtered by status as well.
    let all: Vec<SubscriberRecord> = sim
        .subscribers
        .iter()
        .map(|r| SubscriberRecord { id: r.id, email: r.email.clone(), name: r.name.clone(), subscribed_at: r.subscribed_at, status: r.status })
        .collect();
    assert!(publish(&mut sim, &all, None).is_ok());
    assert_eq!(sim.sent.len(), before);
}

#[test]
fn newsletters_are_delivered_to_confirmed_subscribers() {
    let mut sim = Sim::default();
    run_subscribe(&mut sim, "bn", "tdnb@hello.com", Fail::Nothing).ok().unwrap();
    let token = token_in_link(&sim.sent[0]);
    let step = confirm(sim.lookup(&token));
    sim.perform(step.action().unwrap(), Fail::Nothing);
    let before = sim.sent.len();
    let rows = sim.confirmed_rows();
    assert!(publish(&mut sim, &rows, None).is_ok());
    assert_eq!(sim.sent.len(), before + 1);
    let m = &sim.sent[before];
    assert_eq!(m.to, "tdnb@hello.com");
    assert_eq!(m.subject, "Newsletter #1");
    assert_eq!(m.html_body, "<p>Sample newsletter</p>");
    assert_eq!(m.text_body, "Sample newsletter");
}

#[test]
fn end_to_end_subscribe_confirm_publish() {
    let mut sim = Sim::default();
    let id = run_subscribe(&mut sim, "bn", "tdnb@hello.com", Fail::Nothing).ok().unwrap();
    assert_eq!(sim.subscribers[0].id, id);
    assert_eq!(sim.subscribers.len(), 1);
    assert_eq!(sim.subscribers[0].status, SubscriptionStatus::PendingConfirmation);
    assert_eq!(sim.sent.len(), 1);
    let link_prefix = format!("{}/subscriptions/confirm?subscription_token=", BASE_URL);
    assert!(sim.sent[0].text_body.contains(&link_prefix));
    let token = token_in_link(&sim.sent[0]);
    assert_eq!(token.len(), 25);
    assert!(token.chars().all(|c| c.is_ascii_alphanumeric()));
    let step = confirm(sim.lookup(&token));
    let ok = sim.perform(step.action().unwrap(), Fail::Nothing);
    assert_eq!(step.finish(ok), Ok(()));
    assert_eq!(sim.subscribers[0].status, SubscriptionStatus::Confirmed);
    let rows = sim.confirmed_rows();
    assert!(publish(&mut sim, &rows, None).is_ok());
    assert_eq!(sim.sent.len(), 2);
    assert_eq!(sim.sent[1].to, "tdnb@hello.com");
}

#[test]
fn end_to_end_empty_name_is_rejected_without_side_effects() {
    let sim = Sim::default();
    let e = subscribe(form("", "tdnb@hello.com"), &sender(), BASE_URL).err().unwrap();
    assert_eq!(e.status_code(), 400);
    assert!(sim.subscribers.is_empty() && sim.tokens.is_empty() && sim.sent.is_empty());
}

#[test]
fn publishing_stops_at_the_first_delivery_failure() {
    let mut sim = Sim::default();
    let rows: Vec<SubscriberRecord> = (0..3u128)
        .map(|i| SubscriberRecord {
            id: i,
            email: format!("s{}@hello.com", i),
            name: "n".to_string(),
            subscribed_at: 0,
            status: SubscriptionStatus::Confirmed,
        })
        .collect();
    let r = publish(&mut sim, &rows, Some(1));
    let e = r.err().unwrap();
    assert!(matches!(e, PublishError::EmailDeliveryError));
    assert_eq!(e.status_code(), 500);
    assert!(e.challenge().is_none());
    assert_eq!(sim.sent.len(), 1);
    assert_eq!(sim.sent[0].to, "s0@hello.com");
}

#[test]
fn publishing_skips_rows_with_an_invalid_stored_address() {
    let mut sim = Sim::default();
    let rows = vec![
        SubscriberRecord { id: 1, email: "broken".to_string(), name: "a".to_string(), subscribed_at: 0, status: SubscriptionStatus::Confirmed },
        SubscriberRecord { id: 2, email: "ok@hello.com".to_string(), name: "b".to_string(), subscribed_at: 0, status: SubscriptionStatus::Confirmed },
    ];
    assert!(publish(&mut sim, &rows, None).is_ok());
    assert_eq!(sim.sent.len(), 1);
    assert_eq!(sim.sent[0].to, "ok@hello.com");
    let d = publish_newsletter(&rows, &issue(), &sender());
    assert_eq!(d.skipped(), &vec!["broken".to_string()]);
    let entries = newsletter_recipients(&rows);
    assert_eq!(entries.len(), 2);
    assert_eq!(entries[0].as_ref().err(), Some(&"broken".to_string()));
    assert_eq!(entries[1].as_ref().ok().map(|e| e.as_str()), Some("ok@hello.com"));
}

#[test]
fn recipient_entries_cover_confirmed_rows_only() {
    let rows = vec![
        SubscriberRecord { id: 1, email: "p@hello.com".to_string(), name: "a".to_string(), subscribed_at: 0, status: SubscriptionStatus::PendingConfirmation },
        SubscriberRecord { id: 2, email: "bad".to_string(), name: "b".to_string(), subscribed_at: 0, status: SubscriptionStatus::PendingConfirmation },
        SubscriberRecord { id: 3, email: "c@hello.com".to_string(), name: "c".to_string(), subscribed_at: 0, status: SubscriptionStatus::Confirmed },
    ];
    let entries = newsletter_recipients(&rows);
    assert_eq!(entries.len(), 1);
    assert_eq!(entries[0].as_ref().ok().map(|e| e.as_str()), Some("c@hello.com"));
    assert!(publish_newsletter(&rows, &issue(), &sender()).skipped().is_empty());
}

#[test]
fn publishing_with_no_confirmed_subscriber_sends_nothing() {
    let d = publish_newsletter(&Vec::new(), &issue(), &sender());
    assert!(d.pending_action().is_none());
    assert_eq!(d.delivered(), 0);
    assert!(matches!(d.result(), Some(Ok(()))));
}

#[test]
fn error_messages_and_chains() {
    let v = SubscriberError::ValidationError("bad name".to_string());
    assert_eq!(v.message(), "bad name");
    let from: SubscriberError = SubscriberError::from("bad email".to_string());
    assert_eq!(from.message(), "bad email");
    assert_eq!(SubscriberError::StorageError.status_code(), 500);
    assert_eq!(SubscriberError::StorageError.message(), "the subscription could not be stored");
    assert_eq!(SubscriberError::EmailDeliveryError.message(), "the confirmation email could not be sent");
    let chain = vec!["outer".to_string(), "middle".to_string(), "inner".to_string()];
    assert_eq!(error_chain_fmt(&chain), "outer\n\nCaused by:\n\tmiddle\nCaused by:\n\tinner\n");
    assert_eq!(error_chain_fmt(&vec!["only".to_string()]), "only\n\n");
    assert_eq!(error_chain_fmt(&Vec::new()), "");
}

#[test]
fn an_overlong_raw_name_is_rejected_before_any_request() {
    let name = format!("{}a", " ".repeat(300));
    let e = subscribe(form(&name, "tdnb@hello.com"), &sender(), BASE_URL).err().unwrap();
    assert_eq!(e.status_code(), 400);
    let e = subscribe(form("\tbn", "tdnb@hello.com"), &sender(), BASE_URL).err().unwrap();
    assert_eq!(e.status_code(), 400);
}

#[test]
fn a_token_collision_is_a_storage_error() {
    let mut sim = Sim::default();
    let token = "aaaaaaaaaaaaaaaaaaaaaaaaa";
    sim.tokens.push(TokenRecord { token: token.to_string(), subscriber_id: 1 });
    let subscriber = NewSubscriber::try_from(form("bn", "tdnb@hello.com")).unwrap();
    let p = SubscriptionPipeline::new(subscriber, 2, 0, token.to_string(), &sender(), BASE_URL);
    let e = drive(p, &mut sim, Fail::Nothing).err().unwrap();
    assert!(matches!(e, SubscriberError::StorageError));
    assert!(sim.subscribers.is_empty());
    assert_eq!(sim.tokens.len(), 1);
    assert!(sim.sent.is_empty());
}

#[test]
fn an_id_collision_is_a_storage_error() {
    let mut sim = Sim::default();
    sim.subscribers.push(SubscriberRecord {
        id: 5,
        email: "old@hello.com".to_string(),
        name: "old".to_string(),
        subscribed_at: 0,
        status: SubscriptionStatus::Confirmed,
    });
    let subscriber = NewSubscriber::try_from(form("bn", "tdnb@hello.com")).unwrap();
    let p = SubscriptionPipeline::new(subscriber, 5, 0, "bbbbbbbbbbbbbbbbbbbbbbbbb".to_string(), &sender(), BASE_URL);
    let e = drive(p, &mut sim, Fail::Nothing).err().unwrap();
    assert!(matches!(e, SubscriberError::StorageError));
    assert_eq!(sim.subscribers.len(), 1);
    assert!(sim.tokens.is_empty() && sim.sent.is_empty());
}
