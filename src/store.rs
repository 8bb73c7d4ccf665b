use vstd::prelude::*;

use crate::email::{EmailMessage, EmailView};

verus! {

/// Lifecycle of a subscriber: created pending, confirmed at most once, never reverted.
#[derive(PartialEq, Eq, Structural, Clone, Copy, Debug)]
pub enum SubscriptionStatus {
    PendingConfirmation,
    Confirmed,
}

/// A subscriber row as the store holds it.
pub struct SubscriberRecord {
    pub id: u128,
    pub email: String,
    pub name: String,
    /// When the subscription was made, in microseconds since the Unix epoch.
    pub subscribed_at: i64,
    pub status: SubscriptionStatus,
}

pub struct SubscriberRow {
    pub id: u128,
    pub email: Seq<char>,
    pub name: Seq<char>,
    pub subscribed_at: i64,
    pub status: SubscriptionStatus,
}

impl View for SubscriberRecord {
    type V = SubscriberRow;

    open spec fn view(&self) -> SubscriberRow {
        SubscriberRow {
            id: self.id,
            email: self.email@,
            name: self.name@,
            subscribed_at: self.subscribed_at,
            status: self.status,
        }
    }
}

/// A confirmation token row, linking a token to the subscriber it confirms.
pub struct TokenRecord {
    pub token: String,
    pub subscriber_id: u128,
}

pub struct TokenRow {
    pub token: Seq<char>,
    pub subscriber_id: u128,
}

impl View for TokenRecord {
    type V = TokenRow;

    open spec fn view(&self) -> TokenRow {
        TokenRow { token: self.token@, subscriber_id: self.subscriber_id }
    }
}

/// One request to the store or to the mail gateway. Each is performed by the
/// caller, which reports back whether it succeeded.
pub enum StoreAction {
    BeginTransaction,
    InsertSubscriber(SubscriberRecord),
    InsertToken(TokenRecord),
    SendEmail(EmailMessage),
    UpdateStatus(u128, SubscriptionStatus),
    Commit,
    Rollback,
}

pub enum ActionView {
    BeginTransaction,
    InsertSubscriber(SubscriberRow),
    InsertToken(TokenRow),
    SendEmail(EmailView),
    UpdateStatus(u128, SubscriptionStatus),
    Commit,
    Rollback,
}

impl View for StoreAction {
    type V = ActionView;

    open spec fn view(&self) -> ActionView {
        match self {
            StoreAction::BeginTransaction => ActionView::BeginTransaction,
            StoreAction::InsertSubscriber(r) => ActionView::InsertSubscriber(r@),
            StoreAction::InsertToken(t) => ActionView::InsertToken(t@),
            StoreAction::SendEmail(e) => ActionView::SendEmail(e@),
            StoreAction::UpdateStatus(id, s) => ActionView::UpdateStatus(*id, *s),
            StoreAction::Commit => ActionView::Commit,
            StoreAction::Rollback => ActionView::Rollback,
        }
    }
}

/// What an outside observer can know of the store and the mail gateway:
/// the committed relations, the writes of the open transaction (if any), and
/// every email delivered so far.
pub struct StoreModel {
    pub subscribers: Seq<SubscriberRow>,
    pub tokens: Seq<TokenRow>,
    pub in_transaction: bool,
    pub staged_subscribers: Seq<SubscriberRow>,
    pub staged_tokens: Seq<TokenRow>,
    pub sent: Seq<EmailView>,
}

/// The store with no transaction open.
pub open spec fn is_idle(m: StoreModel) -> bool {
    !m.in_transaction && m.staged_subscribers.len() == 0 && m.staged_tokens.len() == 0
}

/// `m` with the open transaction discarded.
pub open spec fn rolled_back(m: StoreModel) -> StoreModel {
    StoreModel {
        in_transaction: false,
        staged_subscribers: Seq::empty(),
        staged_tokens: Seq::empty(),
        ..m
    }
}

/// Every subscriber row whose id is `id` becomes `status`; the others stay.
pub open spec fn with_status(rows: Seq<SubscriberRow>, id: u128, status: SubscriptionStatus) -> Seq<SubscriberRow> {
    rows.map_values(|r: SubscriberRow| if r.id == id { SubscriberRow { status, ..r } } else { r })
}

/// The store after `a` was performed, `ok` telling whether it succeeded. A
/// failed statement changes nothing; a failed commit discards the transaction.
pub open spec fn apply_action(m: StoreModel, a: ActionView, ok: bool) -> StoreModel {
    match a {
        ActionView::BeginTransaction => if ok {
            StoreModel { in_transaction: true, ..rolled_back(m) }
        } else {
            m
        },
        ActionView::InsertSubscriber(r) => if ok {
            StoreModel { staged_subscribers: m.staged_subscribers.push(r), ..m }
        } else {
            m
        },
        ActionView::InsertToken(t) => if ok {
            StoreModel { staged_tokens: m.staged_tokens.push(t), ..m }
        } else {
            m
        },
        ActionView::SendEmail(e) => if ok {
            StoreModel { sent: m.sent.push(e), ..m }
        } else {
            m
        },
        ActionView::UpdateStatus(id, s) => if ok {
            StoreModel { subscribers: with_status(m.subscribers, id, s), ..m }
        } else {
            m
        },
        ActionView::Commit => if ok {
            StoreModel {
                subscribers: m.subscribers + m.staged_subscribers,
                tokens: m.tokens + m.staged_tokens,
                ..rolled_back(m)
            }
        } else {
            rolled_back(m)
        },
        ActionView::Rollback => rolled_back(m),
    }
}

/// Some row of `rows` has the id `id`.
pub open spec fn holds_id(rows: Seq<SubscriberRow>, id: u128) -> bool {
    exists|i: int| 0 <= i < rows.len() && #[trigger] rows[i].id == id
}

/// Some row of `tokens` has the token value `token`.
pub open spec fn holds_token(tokens: Seq<TokenRow>, token: Seq<char>) -> bool {
    exists|i: int| 0 <= i < tokens.len() && #[trigger] tokens[i].token == token
}

/// Whether a store that keys subscribers by id and tokens by value could
/// report `ok` for `a`: an insert succeeds only where its key is in neither
/// the committed rows nor those of the open transaction.
pub open spec fn outcome_possible(m: StoreModel, a: ActionView, ok: bool) -> bool {
    match a {
        ActionView::InsertSubscriber(r) => ok ==> !holds_id(m.subscribers, r.id) && !holds_id(
            m.staged_subscribers,
            r.id,
        ),
        ActionView::InsertToken(t) => ok ==> !holds_token(m.tokens, t.token) && !holds_token(
            m.staged_tokens,
            t.token,
        ),
        _ => true,
    }
}

/// The subscriber that `token` confirms, if the committed store links it to one.
pub open spec fn token_owner(tokens: Seq<TokenRow>, token: Seq<char>) -> Option<u128>
    decreases tokens.len(),
{
    if tokens.len() == 0 {
        None
    } else if tokens[0].token == token {
        Some(tokens[0].subscriber_id)
    } else {
        token_owner(tokens.drop_first(), token)
    }
}

/// The emails of the confirmed subscribers, in store order.
pub open spec fn confirmed_emails(rows: Seq<SubscriberRow>) -> Seq<Seq<char>>
    decreases rows.len(),
{
    if rows.len() == 0 {
        Seq::empty()
    } else {
        let rest = confirmed_emails(rows.drop_last());
        if rows.last().status == SubscriptionStatus::Confirmed {
            rest.push(rows.last().email)
        } else {
            rest
        }
    }
}

} // verus!
