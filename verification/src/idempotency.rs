//! The idempotency store: one record per (user, idempotency key), which
//! decides who of several identical requests does the work and keeps the
//! response for the others.
//!
//! A record without a response is a claim in flight: its owner has started
//! the work and has neither saved a response nor given the claim up.

use crate::response::{is_status_code, response_from_row, row_from_response, HttpResponse, ResponseView, SavedResponseRow};
use crate::table::{Key, Table};
use vstd::prelude::*;
use vstd::string::*;

verus! {

/// The longest idempotency key, in characters.
pub const MAX_KEY_LENGTH: usize = 50;

/// Why a string is no idempotency key.
#[derive(Debug, Clone, Copy, PartialEq, Eq)]
pub enum IdempotencyKeyError {
    /// The string is empty.
    Empty,
    /// The string has more than fifty characters.
    TooLong,
    /// The string holds a character that is not printable ASCII.
    NotPrintable,
}

impl IdempotencyKeyError {
    /// What to tell the client.
    pub fn message(&self) -> (text: &'static str)
        ensures
            text@ == match *self {
                IdempotencyKeyError::Empty => "The idempotency key cannot be empty"@,
                IdempotencyKeyError::TooLong => "The idempotency key cannot be longer than 50 characters"@,
                IdempotencyKeyError::NotPrintable => "The idempotency key must be printable ASCII"@,
            },
    {
        match self {
            IdempotencyKeyError::Empty => "The idempotency key cannot be empty",
            IdempotencyKeyError::TooLong => "The idempotency key cannot be longer than 50 characters",
            IdempotencyKeyError::NotPrintable => "The idempotency key must be printable ASCII",
        }
    }
}

/// A printable ASCII character: from the space to the tilde.
pub open spec fn is_printable(c: char) -> bool {
    0x20 <= c as u32 <= 0x7e
}

/// Every character of `s` is printable ASCII.
pub open spec fn all_printable(s: Seq<char>) -> bool {
    forall|i: int| 0 <= i < s.len() ==> is_printable(#[trigger] s[i])
}

/// What is wrong with `s` as an idempotency key, if anything: emptiness
/// first, then length, then the characters.
pub open spec fn key_defect(s: Seq<char>) -> Option<IdempotencyKeyError> {
    if s.len() == 0 {
        Some(IdempotencyKeyError::Empty)
    } else if s.len() > MAX_KEY_LENGTH {
        Some(IdempotencyKeyError::TooLong)
    } else if !all_printable(s) {
        Some(IdempotencyKeyError::NotPrintable)
    } else {
        None
    }
}

/// A client's token for "the same request as before": one to fifty printable
/// ASCII characters.
#[derive(Debug, PartialEq, Eq)]
pub struct IdempotencyKey {
    text: String,
}

impl View for IdempotencyKey {
    type V = Seq<char>;

    closed spec fn view(&self) -> Seq<char> {
        self.text@
    }
}

impl IdempotencyKey {
    #[verifier::type_invariant]
    closed spec fn well_formed(&self) -> bool {
        key_defect(self.text@) is None
    }

    /// Accepts `s` as a key, or says what is wrong with it.
    pub fn parse(s: String) -> (r: Result<IdempotencyKey, IdempotencyKeyError>)
        ensures
            match r {
                Ok(key) => key_defect(s@) is None && key@ == s@,
                Err(e) => key_defect(s@) == Some(e),
            },
    {
        let n = s.as_str().unicode_len();
        if n == 0 {
            return Err(IdempotencyKeyError::Empty);
        }
        if n > MAX_KEY_LENGTH {
            return Err(IdempotencyKeyError::TooLong);
        }
        let mut i: usize = 0;
        while i < n
            invariant
                i <= n,
                0 < n <= MAX_KEY_LENGTH,
                n == s@.len(),
                forall|j: int| 0 <= j < i ==> is_printable(#[trigger] s@[j]),
            decreases n - i,
        {
            let c = s.as_str().get_char(i);
            let code = c as u32;
            if code < 0x20 || code > 0x7e {
                assert(!is_printable(s@[i as int]));
                return Err(IdempotencyKeyError::NotPrintable);
            }
            i += 1;
        }
        Ok(IdempotencyKey { text: s })
    }

    /// The key's characters. They are a valid key.
    pub fn as_str(&self) -> (s: &str)
        ensures
            s@ == self@,
            key_defect(self@) is None,
    {
        proof {
            use_type_invariant(self);
        }
        self.text.as_str()
    }
}

impl Clone for IdempotencyKey {
    fn clone(&self) -> (copy: IdempotencyKey)
        ensures
            copy@ == self@,
    {
        proof {
            use_type_invariant(self);
        }
        IdempotencyKey { text: self.text.clone() }
    }
}

/// What a record holds besides its key, as contracts see it.
pub struct SlotView {
    /// When the claim was made.
    pub created_at: int,
    /// The saved response; `None` while the claim is in flight.
    pub response: Option<ResponseView>,
}

/// The store as contracts see it: the records by (user, key).
pub type StoreView = Map<Key, SlotView>;

/// What a record holds besides its key.
pub struct Slot {
    pub created_at: u64,
    pub response: Option<SavedResponseRow>,
}

impl View for Slot {
    type V = SlotView;

    open spec fn view(&self) -> SlotView {
        SlotView {
            created_at: self.created_at as int,
            response: match self.response {
                Some(row) => Some(row@),
                None => None,
            },
        }
    }
}

/// The idempotency records.
pub struct IdempotencyStore {
    records: Table<Slot>,
}

impl View for IdempotencyStore {
    type V = StoreView;

    closed spec fn view(&self) -> StoreView {
        Map::new(|k: Key| self.records@.contains_key(k), |k: Key| self.records@[k]@)
    }
}

/// The right to do the work for one (user, key), handed out by a claim that
/// found no record. It ends in `save_response` or in `rollback`.
#[derive(Debug, PartialEq, Eq)]
pub struct Transaction {
    user_id: u128,
    idempotency_key: String,
}

impl View for Transaction {
    type V = Key;

    closed spec fn view(&self) -> Key {
        (self.user_id, self.idempotency_key@)
    }
}

/// What a request does next.
#[derive(Debug, PartialEq, Eq)]
pub enum NextAction {
    /// It owns the claim: it does the work and saves the response.
    StartProcessing(Transaction),
    /// The work was done before: it answers with the saved response.
    ReturnedHttpResponse(HttpResponse),
}

/// The store is not in the state that the operation relies on.
#[derive(Debug, Clone, Copy, PartialEq, Eq)]
pub enum IdempotencyError {
    /// A record exists and holds no response: its owner is still at work.
    ResponseNotSaved,
    /// No claim in flight stands behind the transaction.
    NoClaimInFlight,
}

/// How a claim ends, as contracts see it.
pub enum ClaimView {
    /// No record existed: the caller owns the claim.
    Owner,
    /// A record with a response existed: the response is replayed.
    Cached(ResponseView),
    /// A record without a response existed.
    Refused,
}

/// A claim on `k` at time `now`: the store after it, and how it ends.
pub open spec fn claim_spec(store: StoreView, k: Key, now: int) -> (StoreView, ClaimView) {
    if !store.contains_key(k) {
        (store.insert(k, SlotView { created_at: now, response: None }), ClaimView::Owner)
    } else {
        match store[k].response {
            Some(response) => (store, ClaimView::Cached(response)),
            None => (store, ClaimView::Refused),
        }
    }
}

/// The claim on `k` is in flight.
pub open spec fn in_flight(store: StoreView, k: Key) -> bool {
    store.contains_key(k) && store[k].response is None
}

/// The store after the owner of the claim on `k` has saved `response`.
pub open spec fn save_spec(store: StoreView, k: Key, response: ResponseView) -> StoreView {
    if in_flight(store, k) {
        store.insert(k, SlotView { created_at: store[k].created_at, response: Some(response) })
    } else {
        store
    }
}

/// The store after the owner of the claim on `k` has given it up.
pub open spec fn rollback_spec(store: StoreView, k: Key) -> StoreView {
    if in_flight(store, k) {
        store.remove(k)
    } else {
        store
    }
}

/// How the result of `try_processing` reads as the end of a claim.
pub open spec fn claim_view(r: Result<NextAction, IdempotencyError>) -> ClaimView {
    match r {
        Ok(NextAction::StartProcessing(_)) => ClaimView::Owner,
        Ok(NextAction::ReturnedHttpResponse(response)) => ClaimView::Cached(response@),
        Err(_) => ClaimView::Refused,
    }
}

impl IdempotencyStore {
    /// No key is held twice, and every saved response has a status code.
    pub closed spec fn wf(&self) -> bool {
        &&& self.records.wf()
        &&& forall|k: Key| #[trigger]
            self.records@.contains_key(k) ==> (self.records@[k].response matches Some(row)
                ==> is_status_code(row@.status_code))
    }

    /// A store without records.
    pub fn new() -> (store: IdempotencyStore)
        ensures
            store.wf(),
            store@ == Map::<Key, SlotView>::empty(),
    {
        let store = IdempotencyStore { records: Table::new() };
        assert(store@ =~= Map::<Key, SlotView>::empty());
        store
    }

    /// The number of records.
    pub fn len(&self) -> (n: usize)
        requires
            self.wf(),
        ensures
            self@.dom().finite(),
            n == self@.dom().len(),
    {
        let n = self.records.len();
        assert(self@.dom() =~= self.records@.dom());
        n
    }
}

/// Claims the right to do the work for `(user_id, idempotency_key)`.
///
/// Where no record exists, one is made without a response and the caller
/// becomes the owner. Where a record with a response exists, the response is
/// handed back and nothing changes. Where a record without a response
/// exists, its owner is still at work; the call fails and nothing changes.
pub fn try_processing(
    store: &mut IdempotencyStore,
    idempotency_key: &IdempotencyKey,
    user_id: u128,
    now: u64,
) -> (r: Result<NextAction, IdempotencyError>)
    requires
        old(store).wf(),
    ensures
        final(store).wf(),
        (final(store)@, claim_view(r)) == claim_spec(old(store)@, (user_id, idempotency_key@), now as int),
        r matches Ok(NextAction::StartProcessing(transaction)) ==> transaction@ == (user_id, idempotency_key@),
        r matches Err(e) ==> e == IdempotencyError::ResponseNotSaved,
{
    let name = idempotency_key.text.clone();
    let ghost k: Key = (user_id, idempotency_key@);
    match store.records.position(user_id, &name) {
        None => {
            let _ = store.records.insert(user_id, name.clone(), Slot { created_at: now, response: None });
            assert(store@ =~= old(store)@.insert(k, SlotView { created_at: now as int, response: None }));
            Ok(NextAction::StartProcessing(Transaction { user_id, idempotency_key: name }))
        },
        Some(i) => {
            let row = store.records.row(i);
            match &row.value.response {
                Some(saved) => {
                    match response_from_row(saved.duplicate()) {
                        Ok(response) => Ok(NextAction::ReturnedHttpResponse(response)),
                        Err(_) => {
                            assert(false);
                            Err(IdempotencyError::ResponseNotSaved)
                        },
                    }
                },
                None => Err(IdempotencyError::ResponseNotSaved),
            }
        },
    }
}

/// The response saved for `(user_id, idempotency_key)`, if one is saved.
pub fn get_saved_response(store: &IdempotencyStore, idempotency_key: &IdempotencyKey, user_id: u128) -> (r:
    Option<HttpResponse>)
    requires
        store.wf(),
    ensures
        match r {
            Some(response) => store@.contains_key((user_id, idempotency_key@)) && store@[(
                user_id,
                idempotency_key@,
            )].response == Some(response@),
            None => !store@.contains_key((user_id, idempotency_key@)) || store@[(
                user_id,
                idempotency_key@,
            )].response is None,
        },
{
    let name = idempotency_key.text.clone();
    match store.records.position(user_id, &name) {
        None => None,
        Some(i) => {
            let row = store.records.row(i);
            match &row.value.response {
                Some(saved) => {
                    match response_from_row(saved.duplicate()) {
                        Ok(response) => Some(response),
                        Err(_) => {
                            assert(false);
                            None
                        },
                    }
                },
                None => None,
            }
        },
    }
}

/// Saves the owner's response in its record and ends the claim. The response
/// comes back unchanged.
///
/// It fails, and changes nothing, where the transaction's claim is not in
/// flight.
pub fn save_response(store: &mut IdempotencyStore, transaction: Transaction, http_response: HttpResponse) -> (r:
    Result<HttpResponse, IdempotencyError>)
    requires
        old(store).wf(),
    ensures
        final(store).wf(),
        final(store)@ == save_spec(old(store)@, transaction@, http_response@),
        match r {
            Ok(response) => in_flight(old(store)@, transaction@) && response@ == http_response@,
            Err(e) => !in_flight(old(store)@, transaction@) && e == IdempotencyError::NoClaimInFlight,
        },
{
    let Transaction { user_id, idempotency_key } = transaction;
    let ghost k: Key = (user_id, idempotency_key@);
    match store.records.position(user_id, &idempotency_key) {
        None => Err(IdempotencyError::NoClaimInFlight),
        Some(i) => {
            let row = store.records.row(i);
            if row.value.response.is_some() {
                return Err(IdempotencyError::NoClaimInFlight);
            }
            let created_at = row.value.created_at;
            let saved = row_from_response(&http_response);
            let _ = store.records.replace(i, Slot { created_at, response: Some(saved) });
            assert(store@ =~= old(store)@.insert(
                k,
                SlotView { created_at: old(store)@[k].created_at, response: Some(http_response@) },
            ));
            Ok(http_response)
        },
    }
}

/// Gives the transaction's claim up: its record is removed, and the next
/// claim on the same key finds none. Where the claim is not in flight,
/// nothing changes.
pub fn rollback(store: &mut IdempotencyStore, transaction: Transaction)
    requires
        old(store).wf(),
    ensures
        final(store).wf(),
        final(store)@ == rollback_spec(old(store)@, transaction@),
{
    let Transaction { user_id, idempotency_key } = transaction;
    let ghost k: Key = (user_id, idempotency_key@);
    match store.records.position(user_id, &idempotency_key) {
        None => {},
        Some(i) => {
            let row = store.records.row(i);
            if row.value.response.is_none() {
                let _ = store.records.remove(i);
                assert(store@ =~= old(store)@.remove(k));
            }
        },
    }
}

} // verus!
