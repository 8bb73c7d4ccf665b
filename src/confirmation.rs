use vstd::prelude::*;

use crate::store::{
    apply_action, token_owner, with_status, ActionView, StoreAction, StoreModel,
    SubscriptionStatus, TokenRow,
};

verus! {

/// The query parameters of a confirmation request.
pub struct Parameters {
    pub subscription_token: String,
}

/// Why a confirmation failed.
#[derive(PartialEq, Eq, Structural, Clone, Copy, Debug)]
pub enum ConfirmError {
    /// The token is unknown.
    Unauthorized,
    /// The store failed; the client should retry.
    StorageError,
}

impl ConfirmError {
    /// HTTP status that reports this error.
    pub fn status_code(&self) -> (r: u16)
        ensures
            r == (if *self == ConfirmError::Unauthorized { 401u16 } else { 500u16 }),
    {
        match self {
            ConfirmError::Unauthorized => 401,
            ConfirmError::StorageError => 500,
        }
    }
}

/// What looking a token up in the store returned.
#[derive(PartialEq, Eq, Structural, Clone, Copy, Debug)]
pub enum TokenLookup {
    Failed,
    NotFound,
    Found(u128),
}

/// What a confirmation does once its token was looked up.
#[derive(PartialEq, Eq, Structural, Clone, Copy, Debug)]
pub enum ConfirmStep {
    /// Mark this subscriber confirmed.
    Confirm(u128),
    /// Stop with this error; nothing is written.
    Reject(ConfirmError),
}

pub open spec fn decision_of(lookup: TokenLookup) -> ConfirmStep {
    match lookup {
        TokenLookup::Failed => ConfirmStep::Reject(ConfirmError::StorageError),
        TokenLookup::NotFound => ConfirmStep::Reject(ConfirmError::Unauthorized),
        TokenLookup::Found(id) => ConfirmStep::Confirm(id),
    }
}

/// The lookup that the committed store `m` answers for `token`.
pub open spec fn lookup_in(m: StoreModel, token: Seq<char>) -> TokenLookup {
    match token_owner(m.tokens, token) {
        Some(id) => TokenLookup::Found(id),
        None => TokenLookup::NotFound,
    }
}

/// A confirmation of `token` against the store `m`, when every store request
/// succeeds: its result and the store after it.
pub open spec fn confirm_in(m: StoreModel, token: Seq<char>) -> (Result<(), ConfirmError>, StoreModel) {
    match decision_of(lookup_in(m, token)) {
        ConfirmStep::Reject(e) => (Err(e), m),
        ConfirmStep::Confirm(id) => (
            Ok(()),
            apply_action(m, ActionView::UpdateStatus(id, SubscriptionStatus::Confirmed), true),
        ),
    }
}

/// Decides what to do with the result of a token lookup: an unknown token is
/// unauthorized, a failed lookup is a storage error, a known token confirms
/// its subscriber.
pub fn confirm(lookup: TokenLookup) -> (r: ConfirmStep)
    ensures
        r == decision_of(lookup),
{
    match lookup {
        TokenLookup::Failed => ConfirmStep::Reject(ConfirmError::StorageError),
        TokenLookup::NotFound => ConfirmStep::Reject(ConfirmError::Unauthorized),
        TokenLookup::Found(id) => ConfirmStep::Confirm(id),
    }
}

impl ConfirmStep {
    /// The store request this step makes: the status update, if any.
    pub fn action(&self) -> (r: Option<StoreAction>)
        ensures
            match *self {
                ConfirmStep::Confirm(id) => (r matches Some(a) && a@ == ActionView::UpdateStatus(
                    id,
                    SubscriptionStatus::Confirmed,
                )),
                ConfirmStep::Reject(_) => r is None,
            },
    {
        match self {
            ConfirmStep::Confirm(id) => Some(StoreAction::UpdateStatus(*id, SubscriptionStatus::Confirmed)),
            ConfirmStep::Reject(_) => None,
        }
    }

    /// The confirmation's result, given whether the status update succeeded
    /// (ignored when there was none).
    pub fn finish(&self, update_ok: bool) -> (r: Result<(), ConfirmError>)
        ensures
            r == match *self {
                ConfirmStep::Confirm(_) => if update_ok { Ok(()) } else { Err(ConfirmError::StorageError) },
                ConfirmStep::Reject(e) => Err(e),
            },
    {
        match self {
            ConfirmStep::Confirm(_) => if update_ok { Ok(()) } else { Err(ConfirmError::StorageError) },
            ConfirmStep::Reject(e) => Err(*e),
        }
    }
}

/// Confirming with a token that no token row holds is unauthorized and leaves
/// the store exactly as it was.
pub proof fn lemma_unknown_token_rejected(m: StoreModel, token: Seq<char>)
    requires
        token_owner(m.tokens, token) is None,
    ensures
        confirm_in(m, token) == (Err::<(), ConfirmError>(ConfirmError::Unauthorized), m),
{
}

/// Confirming with a token that links to subscriber `id` succeeds, marks every
/// row of that subscriber confirmed and leaves every other row and all tokens
/// as they were. Confirming again with the same token succeeds and changes
/// nothing.
pub proof fn lemma_confirm_idempotent(m: StoreModel, token: Seq<char>, id: u128)
    requires
        token_owner(m.tokens, token) == Some(id),
    ensures
        ({
            let (r1, m1) = confirm_in(m, token);
            &&& r1 == Ok::<(), ConfirmError>(())
            &&& m1.tokens == m.tokens
            &&& m1.subscribers.len() == m.subscribers.len()
            &&& forall|i: int| 0 <= i < m.subscribers.len() ==> {
                let (old_row, new_row) = (m.subscribers[i], #[trigger] m1.subscribers[i]);
                if old_row.id == id {
                    new_row.status == SubscriptionStatus::Confirmed && new_row.id == old_row.id
                        && new_row.email == old_row.email && new_row.name == old_row.name
                } else {
                    new_row == old_row
                }
            }
            &&& confirm_in(m1, token) == (Ok::<(), ConfirmError>(()), m1)
        }),
{
    let m1 = confirm_in(m, token).1;
    assert(m1.subscribers == with_status(m.subscribers, id, SubscriptionStatus::Confirmed));
    let m2 = confirm_in(m1, token).1;
    assert(m2.subscribers =~= m1.subscribers);
    assert(m2 == m1);
}

proof fn lemma_token_owner_has_row(tokens: Seq<TokenRow>, token: Seq<char>)
    requires
        token_owner(tokens, token) is Some,
    ensures
        exists|j: int|
            0 <= j < tokens.len() && #[trigger] tokens[j].token == token && tokens[j].subscriber_id
                == token_owner(tokens, token).unwrap(),
    decreases tokens.len(),
{
    if tokens[0].token != token {
        lemma_token_owner_has_row(tokens.drop_first(), token);
        let j = choose|j: int|
            0 <= j < tokens.drop_first().len() && #[trigger] tokens.drop_first()[j].token == token
                && tokens.drop_first()[j].subscriber_id == token_owner(tokens.drop_first(), token).unwrap();
        assert(tokens[j + 1] == tokens.drop_first()[j]);
    } else {
        assert(tokens[0].token == token);
    }
}

/// Confirmation is never reached without a token: every subscriber row that a
/// confirmation turns from pending to confirmed belongs to the subscriber that
/// a committed token row with the presented token links to.
pub proof fn lemma_confirmation_needs_token(m: StoreModel, token: Seq<char>)
    ensures
        ({
            let m1 = confirm_in(m, token).1;
            &&& m1.subscribers.len() == m.subscribers.len()
            &&& forall|i: int|
                0 <= i < m.subscribers.len() && #[trigger] m1.subscribers[i].status == SubscriptionStatus::Confirmed
                    && m.subscribers[i].status != SubscriptionStatus::Confirmed ==> exists|j: int|
                    0 <= j < m.tokens.len() && #[trigger] m.tokens[j].token == token
                        && m.tokens[j].subscriber_id == m.subscribers[i].id
        }),
{
    if token_owner(m.tokens, token) is Some {
        lemma_token_owner_has_row(m.tokens, token);
    }
}

} // verus!
