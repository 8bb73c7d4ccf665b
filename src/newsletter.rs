use vstd::prelude::*;
use vstd::string::*;

use crate::domain::{is_valid_email, SubscriberEmail};
use crate::email::{compose_email, EmailMessage, EmailView};
use crate::store::{
    apply_action, confirmed_emails, ActionView, StoreAction, StoreModel, SubscriberRecord,
    SubscriberRow, SubscriptionStatus,
};

verus! {

/// The two renderings of a newsletter issue.
pub struct Content {
    pub text: String,
    pub html: String,
}

/// A newsletter issue as submitted for publication.
pub struct BodyData {
    pub title: String,
    pub content: Content,
}

/// Why publishing failed.
pub enum PublishError {
    /// The caller's credentials were missing or malformed.
    AuthError(String),
    /// The confirmed subscribers could not be read.
    StorageError,
    /// A newsletter could not be delivered; delivery stopped there.
    EmailDeliveryError,
}

impl PublishError {
    /// HTTP status that reports this error.
    pub fn status_code(&self) -> (r: u16)
        ensures
            r == (if self is AuthError { 401u16 } else { 500u16 }),
    {
        match self {
            PublishError::AuthError(_) => 401,
            _ => 500,
        }
    }

    /// The `WWW-Authenticate` challenge that goes with an authentication failure.
    pub fn challenge(&self) -> (r: Option<String>)
        ensures
            self is AuthError ==> (r matches Some(c) && c@ == "Basic realm=\"publish\""@),
            !(self is AuthError) ==> r is None,
    {
        match self {
            PublishError::AuthError(_) => Some(String::from_str("Basic realm=\"publish\"")),
            _ => None,
        }
    }
}

pub open spec fn rows_view(rows: Seq<SubscriberRecord>) -> Seq<SubscriberRow> {
    rows.map_values(|r: SubscriberRecord| r@)
}

/// The addresses a newsletter goes to: the confirmed rows, in order, skipping
/// any whose stored address is not a valid one.
pub open spec fn recipients_of(rows: Seq<SubscriberRow>) -> Seq<Seq<char>>
    decreases rows.len(),
{
    if rows.len() == 0 {
        Seq::empty()
    } else {
        let rest = recipients_of(rows.drop_last());
        let r = rows.last();
        if r.status == SubscriptionStatus::Confirmed && is_valid_email(r.email) {
            rest.push(r.email)
        } else {
            rest
        }
    }
}

/// The newsletter email for one recipient.
pub open spec fn newsletter_email_of(sender: Seq<char>, to: Seq<char>, body: BodyData) -> EmailView {
    EmailView {
        from: sender,
        to,
        subject: body.title@,
        html_body: body.content.html@,
        text_body: body.content.text@,
    }
}

/// The confirmed rows among `rows`, in order.
pub open spec fn confirmed_of(rows: Seq<SubscriberRow>) -> Seq<SubscriberRow>
    decreases rows.len(),
{
    if rows.len() == 0 {
        Seq::empty()
    } else if rows.last().status == SubscriptionStatus::Confirmed {
        confirmed_of(rows.drop_last()).push(rows.last())
    } else {
        confirmed_of(rows.drop_last())
    }
}

/// The valid stored addresses among `rows`, in order.
pub open spec fn valid_addresses(rows: Seq<SubscriberRow>) -> Seq<Seq<char>>
    decreases rows.len(),
{
    if rows.len() == 0 {
        Seq::empty()
    } else if is_valid_email(rows.last().email) {
        valid_addresses(rows.drop_last()).push(rows.last().email)
    } else {
        valid_addresses(rows.drop_last())
    }
}

/// The stored addresses among `rows` that are not valid, in order.
pub open spec fn invalid_addresses(rows: Seq<SubscriberRow>) -> Seq<Seq<char>>
    decreases rows.len(),
{
    if rows.len() == 0 {
        Seq::empty()
    } else if !is_valid_email(rows.last().email) {
        invalid_addresses(rows.drop_last()).push(rows.last().email)
    } else {
        invalid_addresses(rows.drop_last())
    }
}

/// The confirmed rows that a newsletter skips, by their stored address.
pub open spec fn skipped_of(rows: Seq<SubscriberRow>) -> Seq<Seq<char>> {
    invalid_addresses(confirmed_of(rows))
}

/// The entry for one confirmed row: its validated address, or the stored
/// address that failed validation.
pub open spec fn entry_matches(entry: Result<SubscriberEmail, String>, row: SubscriberRow) -> bool {
    match entry {
        Ok(e) => is_valid_email(row.email) && e@ == row.email,
        Err(a) => !is_valid_email(row.email) && a@ == row.email,
    }
}

/// The addresses a newsletter goes to are the valid ones among the confirmed rows.
proof fn lemma_recipients_are_valid_confirmed(rows: Seq<SubscriberRow>)
    ensures
        recipients_of(rows) == valid_addresses(confirmed_of(rows)),
    decreases rows.len(),
{
    if rows.len() > 0 {
        lemma_recipients_are_valid_confirmed(rows.drop_last());
        let c = confirmed_of(rows.drop_last());
        if rows.last().status == SubscriptionStatus::Confirmed {
            assert(c.push(rows.last()).drop_last() =~= c);
        }
    }
}

/// One entry per confirmed row among `rows`, in order: the row's address
/// validated, or, where it fails validation, the stored address as an error,
/// so that the caller can report the row it skips.
pub fn newsletter_recipients(rows: &Vec<SubscriberRecord>) -> (r: Vec<Result<SubscriberEmail, String>>)
    ensures
        r@.len() == confirmed_of(rows_view(rows@)).len(),
        forall|i: int| 0 <= i < r@.len() ==> entry_matches(#[trigger] r@[i], confirmed_of(rows_view(rows@))[i]),
{
    let ghost rv = rows_view(rows@);
    let mut out: Vec<Result<SubscriberEmail, String>> = Vec::new();
    let mut i: usize = 0;
    while i < rows.len()
        invariant
            i <= rows@.len(),
            rv == rows_view(rows@),
            out@.len() == confirmed_of(rv.subrange(0, i as int)).len(),
            forall|k: int| 0 <= k < out@.len() ==> entry_matches(#[trigger] out@[k], confirmed_of(rv.subrange(0, i as int))[k]),
        decreases rows.len() - i,
    {
        let row = &rows[i];
        let ghost before = confirmed_of(rv.subrange(0, i as int));
        assert(rv.subrange(0, i as int + 1).drop_last() =~= rv.subrange(0, i as int));
        assert(rv.subrange(0, i as int + 1).last() == row@);
        if row.status == SubscriptionStatus::Confirmed {
            let entry = match SubscriberEmail::parse(row.email.clone()) {
                Ok(email) => Ok(email),
                Err(_) => Err(row.email.clone()),
            };
            out.push(entry);
            assert(confirmed_of(rv.subrange(0, i as int + 1)) == before.push(row@));
        }
        i = i + 1;
    }
    assert(rv.subrange(0, rows@.len() as int) =~= rv);
    out
}

/// Delivery of one newsletter issue, one recipient after another, stopping at
/// the first failure.
pub struct NewsletterDelivery {
    messages: Vec<EmailMessage>,
    skipped: Vec<String>,
    delivered: usize,
    failed: bool,
}

pub struct DeliveryView {
    pub messages: Seq<EmailView>,
    pub skipped: Seq<Seq<char>>,
    pub delivered: nat,
    pub failed: bool,
}

impl View for NewsletterDelivery {
    type V = DeliveryView;

    closed spec fn view(&self) -> DeliveryView {
        DeliveryView {
            messages: self.messages@.map_values(|m: EmailMessage| m@),
            skipped: self.skipped@.map_values(|a: String| a@),
            delivered: self.delivered as nat,
            failed: self.failed,
        }
    }
}

impl NewsletterDelivery {
    /// A delivery never counts more sends than it has messages.
    pub closed spec fn well_formed(&self) -> bool {
        self.delivered <= self.messages@.len()
    }
}

/// The send a delivery asks for next, if any.
pub open spec fn delivery_action(v: DeliveryView) -> Option<ActionView> {
    if !v.failed && v.delivered < v.messages.len() {
        Some(ActionView::SendEmail(v.messages[v.delivered as int]))
    } else {
        None
    }
}

pub open spec fn delivery_advanced(v: DeliveryView, ok: bool) -> DeliveryView {
    if delivery_action(v) is None {
        v
    } else if ok {
        DeliveryView { delivered: v.delivered + 1, ..v }
    } else {
        DeliveryView { failed: true, ..v }
    }
}

/// The delivery and the store after its sends were performed with the given
/// outcomes, stopping once it is done.
pub open spec fn delivery_run(v: DeliveryView, m: StoreModel, outcomes: Seq<bool>) -> (DeliveryView, StoreModel)
    decreases outcomes.len(),
{
    if outcomes.len() == 0 || delivery_action(v) is None {
        (v, m)
    } else {
        delivery_run(
            delivery_advanced(v, outcomes[0]),
            apply_action(m, delivery_action(v).unwrap(), outcomes[0]),
            outcomes.drop_first(),
        )
    }
}

/// Prepares the delivery of `body` from `sender` to every recipient among
/// `rows` (see `newsletter_recipients`), one email each, in row order. The
/// confirmed rows whose stored address is invalid are skipped and listed.
pub fn publish_newsletter(
    rows: &Vec<SubscriberRecord>,
    body: &BodyData,
    sender: &SubscriberEmail,
) -> (r: NewsletterDelivery)
    ensures
        r.well_formed(),
        r@.delivered == 0,
        !r@.failed,
        r@.skipped == skipped_of(rows_view(rows@)),
        r@.messages.len() == recipients_of(rows_view(rows@)).len(),
        forall|i: int| 0 <= i < r@.messages.len() ==> #[trigger] r@.messages[i] == newsletter_email_of(
            sender@,
            recipients_of(rows_view(rows@))[i],
            *body,
        ),
{
    let entries = newsletter_recipients(rows);
    let ghost c = confirmed_of(rows_view(rows@));
    let mut messages: Vec<EmailMessage> = Vec::new();
    let mut skipped: Vec<String> = Vec::new();
    let mut i: usize = 0;
    while i < entries.len()
        invariant
            i <= entries@.len(),
            c == confirmed_of(rows_view(rows@)),
            entries@.len() == c.len(),
            forall|k: int| 0 <= k < entries@.len() ==> entry_matches(#[trigger] entries@[k], c[k]),
            messages@.len() == valid_addresses(c.subrange(0, i as int)).len(),
            forall|k: int| 0 <= k < messages@.len() ==> #[trigger] messages@[k]@ == newsletter_email_of(
                sender@,
                valid_addresses(c.subrange(0, i as int))[k],
                *body,
            ),
            skipped@.map_values(|a: String| a@) == invalid_addresses(c.subrange(0, i as int)),
        decreases entries.len() - i,
    {
        let ghost valid_before = valid_addresses(c.subrange(0, i as int));
        let ghost skipped_before = skipped@;
        assert(c.subrange(0, i as int + 1).drop_last() =~= c.subrange(0, i as int));
        assert(c.subrange(0, i as int + 1).last() == c[i as int]);
        assert(entry_matches(entries@[i as int], c[i as int]));
        match &entries[i] {
            Ok(to) => {
                let m = compose_email(
                    sender,
                    to,
                    body.title.as_str(),
                    body.content.html.as_str(),
                    body.content.text.as_str(),
                );
                messages.push(m);
                assert(valid_addresses(c.subrange(0, i as int + 1)) == valid_before.push(to@));
            },
            Err(address) => {
                skipped.push(address.clone());
                assert(skipped@.map_values(|a: String| a@) =~= skipped_before.map_values(|a: String| a@).push(address@));
            },
        }
        i = i + 1;
    }
    assert(c.subrange(0, c.len() as int) =~= c);
    proof {
        lemma_recipients_are_valid_confirmed(rows_view(rows@));
    }
    let r = NewsletterDelivery { messages, skipped, delivered: 0, failed: false };
    assert(r@.skipped =~= skipped_of(rows_view(rows@)));
    r
}

impl NewsletterDelivery {
    /// The email to send next, or `None` once delivery is done.
    pub fn pending_action(&self) -> (r: Option<StoreAction>)
        requires
            self.well_formed(),
        ensures
            match r {
                Some(a) => delivery_action(self@) == Some(a@),
                None => delivery_action(self@) is None,
            },
    {
        if !self.failed && self.delivered < self.messages.len() {
            Some(StoreAction::SendEmail(self.messages[self.delivered].duplicate()))
        } else {
            None
        }
    }

    /// Records whether the pending send succeeded.
    pub fn advance(&mut self, ok: bool)
        requires
            old(self).well_formed(),
        ensures
            final(self).well_formed(),
            final(self)@ == delivery_advanced(old(self)@, ok),
    {
        if !self.failed && self.delivered < self.messages.len() {
            if ok {
                self.delivered = self.delivered + 1;
            } else {
                self.failed = true;
            }
        }
    }

    /// The outcome once delivery is done: success when every email went out,
    /// a delivery error at the first one that did not.
    pub fn result(&self) -> (r: Option<Result<(), PublishError>>)
        requires
            self.well_formed(),
        ensures
            self@.failed ==> r matches Some(Err(PublishError::EmailDeliveryError)),
            !self@.failed && self@.delivered == self@.messages.len() ==> r matches Some(Ok(())),
            !self@.failed && self@.delivered < self@.messages.len() ==> r is None,
    {
        if self.failed {
            Some(Err(PublishError::EmailDeliveryError))
        } else if self.delivered == self.messages.len() {
            Some(Ok(()))
        } else {
            None
        }
    }

    /// The stored addresses of the confirmed rows that were skipped as invalid.
    pub fn skipped(&self) -> (r: &Vec<String>)
        ensures
            r@.map_values(|a: String| a@) == self@.skipped,
    {
        &self.skipped
    }

    /// How many emails went out so far.
    pub fn delivered(&self) -> (r: usize)
        ensures
            r == self@.delivered,
    {
        self.delivered
    }
}

/// Newsletters reach confirmed subscribers only: every recipient is the
/// address of a confirmed row; with no confirmed row there is no recipient;
/// and when every confirmed row holds a valid address (as every row that
/// subscribing writes does), there is exactly one recipient per confirmed
/// row, in order.
pub proof fn lemma_recipients_confirmed_only(rows: Seq<SubscriberRow>)
    ensures
        forall|i: int| 0 <= i < recipients_of(rows).len() ==> exists|j: int|
            0 <= j < rows.len() && rows[j].status == SubscriptionStatus::Confirmed
                && #[trigger] recipients_of(rows)[i] == rows[j].email,
        (forall|j: int| 0 <= j < rows.len() ==> #[trigger] rows[j].status != SubscriptionStatus::Confirmed)
            ==> recipients_of(rows).len() == 0,
        (forall|j: int| 0 <= j < rows.len() && #[trigger] rows[j].status == SubscriptionStatus::Confirmed
            ==> is_valid_email(rows[j].email)) ==> recipients_of(rows) == confirmed_emails(rows),
    decreases rows.len(),
{
    if rows.len() > 0 {
        let init = rows.drop_last();
        lemma_recipients_confirmed_only(init);
        assert forall|i: int| 0 <= i < recipients_of(rows).len() implies exists|j: int|
            0 <= j < rows.len() && rows[j].status == SubscriptionStatus::Confirmed
                && #[trigger] recipients_of(rows)[i] == rows[j].email by {
            if i < recipients_of(init).len() {
                let j = choose|j: int| 0 <= j < init.len() && init[j].status == SubscriptionStatus::Confirmed
                    && #[trigger] recipients_of(init)[i] == init[j].email;
                assert(rows[j] == init[j]);
            } else {
                assert(rows[rows.len() - 1] == rows.last());
            }
        }
        if forall|j: int| 0 <= j < rows.len() ==> #[trigger] rows[j].status != SubscriptionStatus::Confirmed {
            assert forall|j: int| 0 <= j < init.len() implies #[trigger] init[j].status != SubscriptionStatus::Confirmed by {
                assert(init[j] == rows[j]);
            }
            assert(rows[rows.len() - 1] == rows.last());
        }
        if forall|j: int| 0 <= j < rows.len() && #[trigger] rows[j].status == SubscriptionStatus::Confirmed
            ==> is_valid_email(rows[j].email) {
            assert forall|j: int| 0 <= j < init.len() && #[trigger] init[j].status == SubscriptionStatus::Confirmed
                implies is_valid_email(init[j].email) by {
                assert(init[j] == rows[j]);
            }
            assert(rows[rows.len() - 1] == rows.last());
        }
    }
}

proof fn lemma_delivery_run(v: DeliveryView, m: StoreModel, outcomes: Seq<bool>)
    requires
        v.delivered <= v.messages.len(),
    ensures
        ({
            let (v2, m2) = delivery_run(v, m, outcomes);
            &&& v2.messages == v.messages
            &&& v.delivered <= v2.delivered <= v.messages.len()
            &&& m2 == StoreModel { sent: m.sent + v.messages.subrange(v.delivered as int, v2.delivered as int), ..m }
            &&& v.failed ==> v2 == v
            &&& (!v.failed && outcomes.len() >= v.messages.len() - v.delivered && forall|i: int|
                0 <= i < outcomes.len() ==> #[trigger] outcomes[i]) ==> !v2.failed && v2.delivered
                == v.messages.len()
        }),
    decreases outcomes.len(),
{
    if outcomes.len() == 0 || delivery_action(v) is None {
        assert(v.messages.subrange(v.delivered as int, v.delivered as int) =~= Seq::<EmailView>::empty());
        assert(m.sent + Seq::<EmailView>::empty() =~= m.sent);
    } else {
        let ok = outcomes[0];
        let v1 = delivery_advanced(v, ok);
        let m1 = apply_action(m, delivery_action(v).unwrap(), ok);
        lemma_delivery_run(v1, m1, outcomes.drop_first());
        let v2 = delivery_run(v1, m1, outcomes.drop_first()).0;
        if ok {
            assert(m.sent.push(v.messages[v.delivered as int]) + v.messages.subrange(v1.delivered as int, v2.delivered as int)
                =~= m.sent + v.messages.subrange(v.delivered as int, v2.delivered as int));
        } else {
            assert(v.messages.subrange(v.delivered as int, v.delivered as int) =~= Seq::<EmailView>::empty());
            assert(m.sent + Seq::<EmailView>::empty() =~= m.sent);
        }
        if !v.failed && outcomes.len() >= v.messages.len() - v.delivered && forall|i: int|
            0 <= i < outcomes.len() ==> #[trigger] outcomes[i] {
            assert(outcomes[0]);
            assert forall|i: int| 0 <= i < outcomes.drop_first().len() implies #[trigger] outcomes.drop_first()[i] by {
                assert(outcomes.drop_first()[i] == outcomes[i + 1]);
            }
        }
    }
}

/// Fan-out sends the issue's emails in order and touches nothing else: after
/// any outcomes, the gateway has delivered a prefix of the messages, one per
/// successful send, and the store is unchanged. When every send succeeds,
/// exactly one email per message (per recipient) goes out; with no
/// recipient, no email goes out at all.
pub proof fn lemma_fan_out(v: DeliveryView, m: StoreModel, outcomes: Seq<bool>)
    requires
        v.delivered == 0,
        !v.failed,
    ensures
        ({
            let (v2, m2) = delivery_run(v, m, outcomes);
            &&& m2 == StoreModel { sent: m.sent + v.messages.subrange(0, v2.delivered as int), ..m }
            &&& (outcomes.len() >= v.messages.len() && forall|i: int| 0 <= i < outcomes.len() ==> #[trigger] outcomes[i])
                ==> !v2.failed && m2.sent == m.sent + v.messages
            &&& v.messages.len() == 0 ==> m2 == m
        }),
{
    lemma_delivery_run(v, m, outcomes);
    let v2 = delivery_run(v, m, outcomes).0;
    assert(v.messages.subrange(0, v.messages.len() as int) =~= v.messages);
    if v.messages.len() == 0 {
        assert(m.sent + v.messages.subrange(0, v2.delivered as int) =~= m.sent);
    }
}

} // verus!
