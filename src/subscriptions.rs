use vstd::prelude::*;
use vstd::string::*;

use crate::domain::{
    invalid_email_message, invalid_name_message, is_valid_email, is_valid_name, trimmed, FormData,
    NewSubscriber, SubscriberEmail,
};
use crate::email::{confirmation_email, confirmation_email_of, EmailMessage, EmailView};
use crate::store::{
    apply_action, holds_id, holds_token, is_idle, outcome_possible, rolled_back, ActionView, StoreAction, StoreModel, SubscriberRecord, SubscriberRow,
    SubscriptionStatus, TokenRecord, TokenRow,
};
use crate::token::{generate_subscription_token, is_valid_token};

verus! {

/// Why a subscription that passed validation was abandoned.
#[derive(PartialEq, Eq, Structural, Clone, Copy, Debug)]
pub enum FailureKind {
    Storage,
    EmailDelivery,
}

/// Where a subscription stands. Each stage but `Done` names the request that
/// is awaiting its outcome.
#[derive(PartialEq, Eq, Structural, Clone, Copy, Debug)]
pub enum Stage {
    Begin,
    InsertSubscriber,
    InsertToken,
    SendEmail,
    Commit,
    RollingBack(FailureKind),
    Done(Option<FailureKind>),
}

/// Why `subscribe` failed.
pub enum SubscriberError {
    /// The name or the email was rejected; nothing was written or sent.
    ValidationError(String),
    /// The store failed; the transaction was rolled back.
    StorageError,
    /// The confirmation email could not be delivered; the transaction was rolled back.
    EmailDeliveryError,
}

impl SubscriberError {
    /// HTTP status that reports this error: a client error for invalid input,
    /// a server error otherwise.
    pub fn status_code(&self) -> (r: u16)
        ensures
            r == (if self is ValidationError { 400u16 } else { 500u16 }),
    {
        match self {
            SubscriberError::ValidationError(_) => 400,
            _ => 500,
        }
    }

    /// A message for the end user: specific for invalid input, generic otherwise.
    pub fn message(&self) -> (r: String)
        ensures
            self matches SubscriberError::ValidationError(m) ==> r@ == m@,
            self is StorageError ==> r@ == "the subscription could not be stored"@,
            self is EmailDeliveryError ==> r@ == "the confirmation email could not be sent"@,
    {
        match self {
            SubscriberError::ValidationError(m) => m.clone(),
            SubscriberError::StorageError => String::from_str("the subscription could not be stored"),
            SubscriberError::EmailDeliveryError => String::from_str("the confirmation email could not be sent"),
        }
    }
}

impl From<String> for SubscriberError {
    fn from(s: String) -> Self {
        SubscriberError::ValidationError(s)
    }
}

impl vstd::std_specs::convert::FromSpecImpl<String> for SubscriberError {
    open spec fn obeys_from_spec() -> bool {
        true
    }

    open spec fn from_spec(s: String) -> Self {
        SubscriberError::ValidationError(s)
    }
}

/// One subscription in flight: the rows it will write, the email it will send,
/// and how far it has come.
pub struct SubscriptionPipeline {
    subscriber_id: u128,
    subscribed_at: i64,
    name: String,
    email: String,
    token: String,
    message: EmailMessage,
    stage: Stage,
}

pub struct PipelineView {
    pub subscriber_id: u128,
    pub subscribed_at: i64,
    pub name: Seq<char>,
    pub email: Seq<char>,
    pub token: Seq<char>,
    pub message: EmailView,
    pub stage: Stage,
}

impl View for SubscriptionPipeline {
    type V = PipelineView;

    closed spec fn view(&self) -> PipelineView {
        PipelineView {
            subscriber_id: self.subscriber_id,
            subscribed_at: self.subscribed_at,
            name: self.name@,
            email: self.email@,
            token: self.token@,
            message: self.message@,
            stage: self.stage,
        }
    }
}

/// The pending subscriber row a pipeline writes.
pub open spec fn subscriber_row_of(v: PipelineView) -> SubscriberRow {
    SubscriberRow {
        id: v.subscriber_id,
        email: v.email,
        name: v.name,
        subscribed_at: v.subscribed_at,
        status: SubscriptionStatus::PendingConfirmation,
    }
}

/// The token row a pipeline writes.
pub open spec fn token_row_of(v: PipelineView) -> TokenRow {
    TokenRow { token: v.token, subscriber_id: v.subscriber_id }
}

/// The request a pipeline asks to be performed next, if any.
pub open spec fn action_of(v: PipelineView) -> Option<ActionView> {
    match v.stage {
        Stage::Begin => Some(ActionView::BeginTransaction),
        Stage::InsertSubscriber => Some(ActionView::InsertSubscriber(subscriber_row_of(v))),
        Stage::InsertToken => Some(ActionView::InsertToken(token_row_of(v))),
        Stage::SendEmail => Some(ActionView::SendEmail(v.message)),
        Stage::Commit => Some(ActionView::Commit),
        Stage::RollingBack(_) => Some(ActionView::Rollback),
        Stage::Done(_) => None,
    }
}

/// The stage after the pending request reported `ok`.
pub open spec fn next_stage(s: Stage, ok: bool) -> Stage {
    match s {
        Stage::Begin => if ok { Stage::InsertSubscriber } else { Stage::Done(Some(FailureKind::Storage)) },
        Stage::InsertSubscriber => if ok { Stage::InsertToken } else { Stage::RollingBack(FailureKind::Storage) },
        Stage::InsertToken => if ok { Stage::SendEmail } else { Stage::RollingBack(FailureKind::Storage) },
        Stage::SendEmail => if ok { Stage::Commit } else { Stage::RollingBack(FailureKind::EmailDelivery) },
        Stage::Commit => if ok { Stage::Done(None) } else { Stage::Done(Some(FailureKind::Storage)) },
        Stage::RollingBack(k) => Stage::Done(Some(k)),
        Stage::Done(k) => Stage::Done(k),
    }
}

pub open spec fn advanced(v: PipelineView, ok: bool) -> PipelineView {
    PipelineView { stage: next_stage(v.stage, ok), ..v }
}

/// The pipeline and the store after the pending requests were performed in
/// turn with the given outcomes, stopping once the pipeline is done.
pub open spec fn run(v: PipelineView, m: StoreModel, outcomes: Seq<bool>) -> (PipelineView, StoreModel)
    decreases outcomes.len(),
{
    if outcomes.len() == 0 || action_of(v) is None {
        (v, m)
    } else {
        run(
            advanced(v, outcomes[0]),
            apply_action(m, action_of(v).unwrap(), outcomes[0]),
            outcomes.drop_first(),
        )
    }
}

/// Every outcome along the run is one that a store keyed by subscriber id and
/// token value could report (see `outcome_possible`).
pub open spec fn outcomes_possible(v: PipelineView, m: StoreModel, outcomes: Seq<bool>) -> bool
    decreases outcomes.len(),
{
    if outcomes.len() == 0 || action_of(v) is None {
        true
    } else {
        outcome_possible(m, action_of(v).unwrap(), outcomes[0]) && outcomes_possible(
            advanced(v, outcomes[0]),
            apply_action(m, action_of(v).unwrap(), outcomes[0]),
            outcomes.drop_first(),
        )
    }
}

/// The new subscriber's id is not in the committed rows of `m0`.
pub open spec fn id_fresh(v: PipelineView, m0: StoreModel) -> bool {
    !holds_id(m0.subscribers, v.subscriber_id)
}

/// The new token is not in the committed tokens of `m0`.
pub open spec fn token_fresh(v: PipelineView, m0: StoreModel) -> bool {
    !holds_token(m0.tokens, v.token)
}

/// The store a pipeline leaves behind at each stage, given the store `m0` it
/// started from. Nothing it writes is committed before the commit succeeds.
pub open spec fn pipeline_inv(v: PipelineView, m0: StoreModel, m: StoreModel) -> bool {
    let row = subscriber_row_of(v);
    let tok = token_row_of(v);
    let open_tx = StoreModel { in_transaction: true, ..rolled_back(m0) };
    let unchanged = m.subscribers == m0.subscribers && m.tokens == m0.tokens;
    &&& (v.stage == Stage::InsertToken || v.stage == Stage::SendEmail || v.stage == Stage::Commit
        || v.stage == Stage::Done(None)) ==> id_fresh(v, m0)
    &&& (v.stage == Stage::SendEmail || v.stage == Stage::Commit || v.stage == Stage::Done(None)
        || v.stage == Stage::RollingBack(FailureKind::EmailDelivery) || v.stage == Stage::Done(
        Some(FailureKind::EmailDelivery),
    )) ==> token_fresh(v, m0) && id_fresh(v, m0)
    &&& match v.stage {
        Stage::Begin => m == m0,
        Stage::InsertSubscriber => m == open_tx,
        Stage::InsertToken => m == StoreModel { staged_subscribers: seq![row], ..open_tx },
        Stage::SendEmail => m == StoreModel {
            staged_subscribers: seq![row],
            staged_tokens: seq![tok],
            ..open_tx
        },
        Stage::Commit => m == StoreModel {
            staged_subscribers: seq![row],
            staged_tokens: seq![tok],
            sent: m0.sent.push(v.message),
            ..open_tx
        },
        Stage::RollingBack(_) => unchanged && m.sent == m0.sent,
        Stage::Done(None) => m == StoreModel {
            subscribers: m0.subscribers.push(row),
            tokens: m0.tokens.push(tok),
            sent: m0.sent.push(v.message),
            ..rolled_back(m0)
        },
        Stage::Done(Some(FailureKind::Storage)) => m == m0 || (unchanged && is_idle(m) && (m.sent
            == m0.sent || m.sent == m0.sent.push(v.message))),
        Stage::Done(Some(FailureKind::EmailDelivery)) => unchanged && is_idle(m) && m.sent == m0.sent,
    }
}

proof fn lemma_pipeline_step(v: PipelineView, m0: StoreModel, m: StoreModel, ok: bool)
    requires
        pipeline_inv(v, m0, m),
        action_of(v) is Some,
        outcome_possible(m, action_of(v).unwrap(), ok),
    ensures
        pipeline_inv(advanced(v, ok), m0, apply_action(m, action_of(v).unwrap(), ok)),
{
    let m2 = apply_action(m, action_of(v).unwrap(), ok);
    let empty_rows = Seq::<SubscriberRow>::empty();
    let empty_tokens = Seq::<TokenRow>::empty();
    if v.stage == Stage::InsertSubscriber {
        assert(empty_rows.push(subscriber_row_of(v)) =~= seq![subscriber_row_of(v)]);
    } else if v.stage == Stage::InsertToken {
        assert(empty_tokens.push(token_row_of(v)) =~= seq![token_row_of(v)]);
    } else if v.stage == Stage::Commit && ok {
        assert(m2.subscribers =~= m0.subscribers.push(subscriber_row_of(v)));
        assert(m2.tokens =~= m0.tokens.push(token_row_of(v)));
    }
}

/// A pipeline keeps its invariant whatever the outcomes of the requests it
/// makes.
pub proof fn lemma_pipeline_run_inv(v: PipelineView, m0: StoreModel, m: StoreModel, outcomes: Seq<bool>)
    requires
        pipeline_inv(v, m0, m),
        outcomes_possible(v, m, outcomes),
    ensures
        pipeline_inv(run(v, m, outcomes).0, m0, run(v, m, outcomes).1),
        run(v, m, outcomes).0 == (PipelineView { stage: run(v, m, outcomes).0.stage, ..v }),
    decreases outcomes.len(),
{
    if outcomes.len() > 0 && action_of(v) is Some {
        lemma_pipeline_step(v, m0, m, outcomes[0]);
        lemma_pipeline_run_inv(
            advanced(v, outcomes[0]),
            m0,
            apply_action(m, action_of(v).unwrap(), outcomes[0]),
            outcomes.drop_first(),
        );
    }
}

/// A pipeline reaches a terminal stage within five requests.
proof fn lemma_pipeline_terminates(v: PipelineView, m: StoreModel, outcomes: Seq<bool>, budget: nat)
    requires
        outcomes.len() >= budget,
        budget >= match v.stage {
            Stage::Begin => 5nat,
            Stage::InsertSubscriber => 4nat,
            Stage::InsertToken => 3nat,
            Stage::SendEmail => 2nat,
            Stage::Commit => 1nat,
            Stage::RollingBack(_) => 1nat,
            Stage::Done(_) => 0nat,
        },
    ensures
        run(v, m, outcomes).0.stage is Done,
    decreases outcomes.len(),
{
    if outcomes.len() > 0 && action_of(v) is Some {
        let ok = outcomes[0];
        lemma_pipeline_terminates(
            advanced(v, ok),
            apply_action(m, action_of(v).unwrap(), ok),
            outcomes.drop_first(),
            (budget - 1) as nat,
        );
    }
}

/// Subscribing is all or nothing. Whatever the outcomes of the store and
/// gateway requests, as long as the store refuses an insert whose key it
/// already holds, once a pipeline is done: on success exactly one pending
/// subscriber row, whose id the store did not hold, and exactly one token row
/// linked to it, whose token the store did not hold, were committed, exactly
/// one confirmation email was sent, and no transaction is left open; where
/// the store already held the id or the token, it ends in a storage failure;
/// on failure no row of either relation was committed, and no transaction is
/// left open where none was to begin with; when the gateway failed, no email
/// was sent either. Before it is done, nothing of it is committed. Five
/// outcomes always suffice to finish it.
pub proof fn lemma_subscribe_all_or_nothing(v: PipelineView, m0: StoreModel, outcomes: Seq<bool>)
    requires
        v.stage == Stage::Begin,
        outcomes_possible(v, m0, outcomes),
    ensures
        ({
            let (v2, m2) = run(v, m0, outcomes);
            &&& v2.stage == Stage::Done(None) ==> {
                &&& m2.subscribers == m0.subscribers.push(subscriber_row_of(v))
                &&& m2.tokens == m0.tokens.push(token_row_of(v))
                &&& m2.sent == m0.sent.push(v.message)
                &&& is_idle(m2)
                &&& !holds_id(m0.subscribers, v.subscriber_id)
                &&& !holds_token(m0.tokens, v.token)
            }
            &&& (holds_token(m0.tokens, v.token) || holds_id(m0.subscribers, v.subscriber_id))
                && v2.stage is Done ==> v2.stage == Stage::Done(Some(FailureKind::Storage))
            &&& v2.stage != Stage::Done(None) ==> m2.subscribers == m0.subscribers && m2.tokens
                == m0.tokens
            &&& v2.stage is Done && v2.stage != Stage::Done(None) && is_idle(m0) ==> is_idle(m2)
            &&& v2.stage == Stage::Done(Some(FailureKind::EmailDelivery)) ==> m2.sent == m0.sent
            &&& outcomes.len() >= 5 ==> v2.stage is Done
        }),
{
    lemma_pipeline_run_inv(v, m0, m0, outcomes);
    if outcomes.len() >= 5 {
        lemma_pipeline_terminates(v, m0, outcomes, 5);
    }
}

impl SubscriptionPipeline {
    /// A pipeline that will write `subscriber` under `subscriber_id`, as
    /// subscribed at `subscribed_at`, with `token`, and send the confirmation
    /// email for `token` from `sender`.
    pub fn new(
        subscriber: NewSubscriber,
        subscriber_id: u128,
        subscribed_at: i64,
        token: String,
        sender: &SubscriberEmail,
        base_url: &str,
    ) -> (r: SubscriptionPipeline)
        ensures
            r@ == (PipelineView {
                subscriber_id,
                subscribed_at,
                name: subscriber.name@,
                email: subscriber.email@,
                token: token@,
                message: confirmation_email_of(sender@, subscriber.email@, base_url@, token@),
                stage: Stage::Begin,
            }),
    {
        let message = confirmation_email(sender, &subscriber.email, base_url, token.as_str());
        SubscriptionPipeline {
            subscriber_id,
            subscribed_at,
            name: String::from_str(subscriber.name.as_str()),
            email: String::from_str(subscriber.email.as_str()),
            token,
            message,
            stage: Stage::Begin,
        }
    }

    pub fn stage(&self) -> (r: Stage)
        ensures
            r == self@.stage,
    {
        self.stage
    }

    pub fn subscriber_id(&self) -> (r: u128)
        ensures
            r == self@.subscriber_id,
    {
        self.subscriber_id
    }

    pub fn token(&self) -> (r: &str)
        ensures
            r@ == self@.token,
    {
        self.token.as_str()
    }

    /// The request to perform next, or `None` once the pipeline is done.
    pub fn pending_action(&self) -> (r: Option<StoreAction>)
        ensures
            match r {
                Some(a) => action_of(self@) == Some(a@),
                None => action_of(self@) is None,
            },
    {
        match self.stage {
            Stage::Begin => Some(StoreAction::BeginTransaction),
            Stage::InsertSubscriber => Some(
                StoreAction::InsertSubscriber(
                    SubscriberRecord {
                        id: self.subscriber_id,
                        email: self.email.clone(),
                        name: self.name.clone(),
                        subscribed_at: self.subscribed_at,
                        status: SubscriptionStatus::PendingConfirmation,
                    },
                ),
            ),
            Stage::InsertToken => Some(
                StoreAction::InsertToken(
                    TokenRecord { token: self.token.clone(), subscriber_id: self.subscriber_id },
                ),
            ),
            Stage::SendEmail => Some(StoreAction::SendEmail(self.message.duplicate())),
            Stage::Commit => Some(StoreAction::Commit),
            Stage::RollingBack(_) => Some(StoreAction::Rollback),
            Stage::Done(_) => None,
        }
    }

    /// Records whether the pending request succeeded, and moves on.
    pub fn advance(&mut self, ok: bool)
        ensures
            final(self)@ == advanced(old(self)@, ok),
    {
        self.stage = match self.stage {
            Stage::Begin => if ok { Stage::InsertSubscriber } else { Stage::Done(Some(FailureKind::Storage)) },
            Stage::InsertSubscriber => if ok { Stage::InsertToken } else { Stage::RollingBack(FailureKind::Storage) },
            Stage::InsertToken => if ok { Stage::SendEmail } else { Stage::RollingBack(FailureKind::Storage) },
            Stage::SendEmail => if ok { Stage::Commit } else { Stage::RollingBack(FailureKind::EmailDelivery) },
            Stage::Commit => if ok { Stage::Done(None) } else { Stage::Done(Some(FailureKind::Storage)) },
            Stage::RollingBack(k) => Stage::Done(Some(k)),
            Stage::Done(k) => Stage::Done(k),
        };
    }

    /// The outcome once the pipeline is done: the new subscriber's id, or why
    /// it was abandoned.
    pub fn result(&self) -> (r: Option<Result<u128, SubscriberError>>)
        ensures
            match self@.stage {
                Stage::Done(None) => r == Some(Ok::<u128, SubscriberError>(self@.subscriber_id)),
                Stage::Done(Some(FailureKind::Storage)) => r matches Some(Err(SubscriberError::StorageError)),
                Stage::Done(Some(FailureKind::EmailDelivery)) => r matches Some(Err(SubscriberError::EmailDeliveryError)),
                _ => r is None,
            },
    {
        match self.stage {
            Stage::Done(None) => Some(Ok(self.subscriber_id)),
            Stage::Done(Some(FailureKind::Storage)) => Some(Err(SubscriberError::StorageError)),
            Stage::Done(Some(FailureKind::EmailDelivery)) => Some(Err(SubscriberError::EmailDeliveryError)),
            _ => None,
        }
    }
}

/// Relies on `Uuid::new_v4` (uuid, as sqlx re-exports it): a random id;
/// nothing is claimed of its value.
#[verifier::external_body]
fn random_subscriber_id() -> u128 {
    sqlx::types::Uuid::new_v4().as_u128()
}

/// Relies on `chrono::Utc::now().timestamp_micros()`: the current time, in
/// microseconds since the Unix epoch; nothing is claimed of its value.
#[verifier::external_body]
fn now_micros() -> i64 {
    chrono::Utc::now().timestamp_micros()
}

/// Validates a subscription form and, if it is valid, prepares the pipeline
/// that stores the subscriber under a fresh random id with a fresh token and
/// sends the confirmation email from `sender`. Invalid input yields a
/// validation error, before any request is made.
pub fn subscribe(
    form: FormData,
    sender: &SubscriberEmail,
    base_url: &str,
) -> (r: Result<SubscriptionPipeline, SubscriberError>)
    ensures
        r is Ok <==> is_valid_name(form.name@) && is_valid_email(form.email@),
        r is Err ==> r matches Err(SubscriberError::ValidationError(_)),
        !is_valid_name(form.name@) ==> (r matches Err(SubscriberError::ValidationError(m)) && m@
            == invalid_name_message(form.name@)),
        is_valid_name(form.name@) && !is_valid_email(form.email@) ==> (r matches Err(
            SubscriberError::ValidationError(m),
        ) && m@ == invalid_email_message(form.email@)),
        r matches Ok(p) ==> {
            &&& p@.stage == Stage::Begin
            &&& p@.name == trimmed(form.name@)
            &&& p@.email == form.email@
            &&& is_valid_token(p@.token)
            &&& p@.message == confirmation_email_of(sender@, form.email@, base_url@, p@.token)
        },
{
    match NewSubscriber::try_from(form) {
        Ok(subscriber) => {
            let token = generate_subscription_token();
            let subscriber_id = random_subscriber_id();
            let subscribed_at = now_micros();
            Ok(SubscriptionPipeline::new(subscriber, subscriber_id, subscribed_at, token, sender, base_url))
        },
        Err(message) => Err(SubscriberError::ValidationError(message)),
    }
}

/// The report of an error and its causes, outermost first: the error, a blank
/// line, then one `Caused by:` entry per cause.
pub open spec fn error_chain_of(messages: Seq<Seq<char>>) -> Seq<char>
    decreases messages.len(),
{
    if messages.len() == 0 {
        Seq::empty()
    } else if messages.len() == 1 {
        messages[0] + "\n\n"@
    } else {
        error_chain_of(messages.drop_last()) + "Caused by:\n\t"@ + messages.last() + "\n"@
    }
}

/// Formats an error chain for logs; `messages` holds the error's message
/// followed by those of its causes.
pub fn error_chain_fmt(messages: &Vec<String>) -> (r: String)
    ensures
        r@ == error_chain_of(messages@.map_values(|m: String| m@)),
{
    let ghost views = messages@.map_values(|m: String| m@);
    if messages.len() == 0 {
        return String::new();
    }
    let mut out = messages[0].clone().concat("\n\n");
    assert(views.subrange(0, 1).drop_last() =~= Seq::<Seq<char>>::empty());
    let mut i: usize = 1;
    while i < messages.len()
        invariant
            1 <= i <= messages@.len(),
            views == messages@.map_values(|m: String| m@),
            out@ == error_chain_of(views.subrange(0, i as int)),
        decreases messages.len() - i,
    {
        out = out.concat("Caused by:\n\t").concat(messages[i].as_str()).concat("\n");
        assert(views.subrange(0, i as int + 1).drop_last() =~= views.subrange(0, i as int));
        i = i + 1;
    }
    assert(views.subrange(0, messages@.len() as int) =~= views);
    out
}

} // verus!
