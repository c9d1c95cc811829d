//! Conversation with the relayer: requests, answers, retries.

use crate::crypto::{hex_chars, hex_encode};
use crate::text::parts::{
    contains_part, count_of, has_part, parse_count, single_spaced, space_singly,
};
use crate::text::{
    count_chars, count_text, join2, opt_text, same_ignoring_ascii_case, same_text,
    text_ignoring_case,
};
use crate::trading::ctf_merge::{
    exact_address, normal_address, normalize_address_hex, parse_exact_address, safe_signature,
    safe_tx_hash, AddressError, AddressRole, CtfMerger, MergerError, MergerFault, MergerView,
    SafeCall, ZERO_ADDRESS,
};
use vstd::prelude::*;
use vstd::string::*;
use vstd::utf8::{encode_utf8, is_char_boundary};

verus! {

/// How often a transaction is looked up before it is given up.
pub const RELAYER_MAX_POLLS: u64 = 30;

/// Seconds between two lookups.
pub const RELAYER_POLL_INTERVAL_SECS: u64 = 2;

/// How often a request is tried.
pub const RELAYER_TIMEOUT_RETRY_ATTEMPTS: u64 = 3;

/// Seconds between two tries of a request.
pub const RELAYER_TIMEOUT_RETRY_DELAY_SECS: u64 = 1;

/// How often a failed transaction is sent again.
pub const SAFE_TX_TERMINAL_RETRY_ATTEMPTS: u64 = 2;

/// Seconds before a failed transaction is sent again.
pub const SAFE_TX_TERMINAL_RETRY_DELAY_SECS: u64 = 3;

/// How far the relayer is with a transaction.
#[derive(Clone, Debug)]
pub struct RelayerTransactionStatus {
    pub transaction_id: String,
    pub transaction_hash: String,
    pub state: String,
}

pub struct StatusView {
    pub id: Seq<char>,
    pub hash: Seq<char>,
    pub state: Seq<char>,
}

impl View for RelayerTransactionStatus {
    type V = StatusView;

    open spec fn view(&self) -> StatusView {
        StatusView {
            id: self.transaction_id@,
            hash: self.transaction_hash@,
            state: self.state@,
        }
    }
}

pub open spec fn succeeded(state: Seq<char>) -> bool {
    state == "STATE_MINED"@ || state == "STATE_CONFIRMED"@
}

pub open spec fn has_failed(state: Seq<char>) -> bool {
    state == "STATE_INVALID"@ || state == "STATE_FAILED"@
}

pub fn relayer_state_is_success(state: &str) -> (r: bool)
    ensures
        r == succeeded(state@),
{
    same_text(state, "STATE_MINED") || same_text(state, "STATE_CONFIRMED")
}

pub fn relayer_state_is_failure(state: &str) -> (r: bool)
    ensures
        r == has_failed(state@),
{
    same_text(state, "STATE_INVALID") || same_text(state, "STATE_FAILED")
}

/// No state is both a success and a failure.
pub proof fn law_terminal_states_are_apart(state: Seq<char>)
    ensures
        !(succeeded(state) && has_failed(state)),
{
    reveal_strlit("STATE_MINED");
    reveal_strlit("STATE_CONFIRMED");
    reveal_strlit("STATE_INVALID");
    reveal_strlit("STATE_FAILED");
    assert("STATE_MINED"@.len() == 11 && "STATE_CONFIRMED"@.len() == 15);
    assert("STATE_INVALID"@.len() == 13 && "STATE_FAILED"@.len() == 12);
}

pub open spec fn shown_hash(hash: Seq<char>) -> Seq<char> {
    if hash.len() == 0 {
        "<pending>"@
    } else {
        hash
    }
}

pub fn display_hash(hash: &str) -> (r: &str)
    ensures
        r@ == shown_hash(hash@),
{
    if hash.is_empty() {
        "<pending>"
    } else {
        hash
    }
}

/// The answer of a server can be cut without splitting a character.
pub open spec fn can_be_cut(body: Seq<char>) -> bool {
    let bytes = encode_utf8(single_spaced(body));
    bytes.len() <= 200 || is_char_boundary(bytes, 200)
}

/// The words of an answer with one space between them, cut to two hundred bytes.
pub open spec fn is_excerpt(r: Seq<char>, body: Seq<char>) -> bool {
    let text = single_spaced(body);
    if encode_utf8(text).len() <= 200 {
        r == text
    } else {
        exists|head: Seq<char>|
            encode_utf8(head) == encode_utf8(text).take(200) && r == head + "..."@
    }
}

pub fn truncate_response_body(body: &str) -> (r: String)
    requires
        can_be_cut(body@),
        encode_utf8(single_spaced(body@)).len() <= usize::MAX,
    ensures
        is_excerpt(r@, body@),
{
    let compact = space_singly(body);
    let text = compact.as_str();
    if text.len() <= 200 {
        return compact;
    }
    let (head, rest) = text.split_at(200);
    proof {
        assert(encode_utf8(head@) =~= encode_utf8(text@).take(200));
    }
    join2(head, "...")
}

/// A server's refusal that may pass.
pub open spec fn may_pass(status: int) -> bool {
    status == 408 || status == 429 || status == 500 || status == 502 || status == 503 || status
        == 504
}

pub fn relayer_http_status_is_retryable(status: u16) -> (r: bool)
    ensures
        r == may_pass(status as int),
{
    match status {
        408 | 429 | 500 | 502 | 503 | 504 => true,
        _ => false,
    }
}

/// A request that failed.
#[derive(Clone, Debug)]
pub struct RelayerHttpError {
    pub message: String,
    pub retryable: bool,
}

/// A request that was not answered: a timeout may pass.
pub fn request_failed(context: &str, what: &str, error: &str, timed_out: bool) -> (r:
    RelayerHttpError)
    ensures
        r.message@ == context@ + " "@ + what@ + ": "@ + error@,
        r.retryable == timed_out,
{
    let mut message = join2(context, " ");
    message.append(what);
    message.append(": ");
    message.append(error);
    RelayerHttpError { message, retryable: timed_out }
}

/// An answer with a status that is no success.
pub fn request_refused(context: &str, status: u16, status_text: &str, body: &str) -> (r:
    RelayerHttpError)
    requires
        can_be_cut(body@),
        encode_utf8(single_spaced(body@)).len() <= usize::MAX,
    ensures
        r.retryable == may_pass(status as int),
        exists|excerpt: Seq<char>| #[trigger]
            is_excerpt(excerpt, body@) && r.message@ == context@ + " returned HTTP "@ + status_text@
                + " with body "@ + excerpt,
{
    let mut message = join2(context, " returned HTTP ");
    message.append(status_text);
    message.append(" with body ");
    let excerpt = truncate_response_body(body);
    message.append(excerpt.as_str());
    RelayerHttpError { message, retryable: relayer_http_status_is_retryable(status) }
}

/// An answer that cannot be read: trying again does not help.
pub fn unreadable_answer(context: &str, body: &str) -> (r: RelayerHttpError)
    requires
        can_be_cut(body@),
        encode_utf8(single_spaced(body@)).len() <= usize::MAX,
    ensures
        !r.retryable,
        exists|excerpt: Seq<char>| #[trigger]
            is_excerpt(excerpt, body@) && r.message@ == context@ + " returned non-JSON body "@
                + excerpt,
{
    let mut message = join2(context, " returned non-JSON body ");
    let excerpt = truncate_response_body(body);
    message.append(excerpt.as_str());
    RelayerHttpError { message, retryable: false }
}

/// Whether the `attempt`th try of a request, counted from one, is followed by another.
pub fn tries_again(attempt: u64, retryable: bool) -> (r: bool)
    ensures
        r == (retryable && attempt < RELAYER_TIMEOUT_RETRY_ATTEMPTS),
{
    retryable && attempt < RELAYER_TIMEOUT_RETRY_ATTEMPTS
}

/// The message is of a transaction that the relayer took and that then failed.
pub open spec fn tells_failed_state(message: Seq<char>) -> bool {
    &&& has_part(message, "relayer "@)
    &&& has_part(message, "STATE_FAILED"@)
    &&& has_part(message, " failed:"@) || has_part(message, " failed immediately:"@)
}

pub fn safe_transaction_error_is_retryable_terminal_failure(message: &str) -> (r: bool)
    ensures
        r == tells_failed_state(message@),
{
    contains_part(message, "relayer ") && contains_part(message, "STATE_FAILED") && (contains_part(
        message,
        " failed:",
    ) || contains_part(message, " failed immediately:"))
}

/// Whether a transaction that failed with this message, after so many retries, is sent again with a
/// fresh nonce.
pub fn sends_again(attempt: u64, message: &str) -> (r: bool)
    ensures
        r == (attempt < SAFE_TX_TERMINAL_RETRY_ATTEMPTS && tells_failed_state(message@)),
{
    attempt < SAFE_TX_TERMINAL_RETRY_ATTEMPTS
        && safe_transaction_error_is_retryable_terminal_failure(message)
}

/// Gas terms of a transaction: none.
#[derive(Clone, Debug)]
pub struct RelayerSignatureParams {
    pub gas_price: String,
    pub operation: String,
    pub safe_txn_gas: String,
    pub base_gas: String,
    pub gas_token: String,
    pub refund_receiver: String,
}

impl RelayerSignatureParams {
    pub open spec fn is_plain(self) -> bool {
        &&& self.gas_price@ == "0"@ && self.operation@ == "0"@
        &&& self.safe_txn_gas@ == "0"@ && self.base_gas@ == "0"@
        &&& self.gas_token@ == ZERO_ADDRESS@ && self.refund_receiver@ == ZERO_ADDRESS@
    }
}

impl Default for RelayerSignatureParams {
    fn default() -> (r: RelayerSignatureParams)
        ensures
            r.is_plain(),
    {
        RelayerSignatureParams {
            gas_price: "0".to_owned(),
            operation: "0".to_owned(),
            safe_txn_gas: "0".to_owned(),
            base_gas: "0".to_owned(),
            gas_token: ZERO_ADDRESS.to_owned(),
            refund_receiver: ZERO_ADDRESS.to_owned(),
        }
    }
}

/// A signed transaction for the relayer.
#[derive(Debug)]
pub struct RelayerSubmitRequest {
    pub from: String,
    pub to: String,
    pub proxy_wallet: String,
    pub data: String,
    pub nonce: String,
    pub signature: String,
    pub signature_params: RelayerSignatureParams,
    pub tx_type: String,
}

/// The request carries this call, signed under this nonce.
pub open spec fn carries(
    request: RelayerSubmitRequest,
    v: MergerView,
    to: Seq<char>,
    data: Seq<u8>,
    nonce: nat,
) -> bool {
    &&& request.from@ == v.signer
    &&& normal_address(to) == Ok::<Seq<char>, AddressError>(request.to@)
    &&& request.proxy_wallet@ == v.safe_hex
    &&& request.data@ == "0x"@ + hex_chars(data)
    &&& request.nonce@ == count_chars(nonce)
    &&& request.signature@ == "0x"@ + hex_chars(
        safe_signature(
            v.key,
            safe_tx_hash(v.safe, exact_address(to)->Ok_0, data, nonce),
        )->0,
    )
    &&& request.signature_params.is_plain()
    &&& request.tx_type@ == "SAFE"@
}

/// What the relayer's first answer to a transaction means.
#[derive(Debug)]
pub enum SubmitStep {
    Failed(String),
    Done(String),
    Wait,
}

/// Where a failed transaction stands, in words.
pub open spec fn failure_chars(
    metadata: Seq<char>,
    how: Seq<char>,
    status: StatusView,
) -> Seq<char> {
    "relayer "@ + metadata + how + " state="@ + status.state + " tx_id="@ + status.id + " tx_hash="@
        + shown_hash(status.hash)
}

fn failure_text(metadata: &str, how: &str, status: &RelayerTransactionStatus) -> (r: String)
    ensures
        r@ == failure_chars(metadata@, how@, status@),
{
    let mut r = join2("relayer ", metadata);
    r.append(how);
    r.append(" state=");
    r.append(status.state.as_str());
    r.append(" tx_id=");
    r.append(status.transaction_id.as_str());
    r.append(" tx_hash=");
    r.append(display_hash(status.transaction_hash.as_str()));
    r
}

/// What the relayer's first answer means: a failure ends it, a success with a hash is all that was
/// wanted, anything else has to be waited for.
pub fn submitted(metadata: &str, status: &RelayerTransactionStatus) -> (r: SubmitStep)
    ensures
        match r {
            SubmitStep::Failed(why) => has_failed(status@.state) && why@ == failure_chars(
                metadata@,
                " failed immediately:"@,
                status@,
            ),
            SubmitStep::Done(hash) => !has_failed(status@.state) && succeeded(status@.state)
                && status@.hash.len() > 0 && hash@ == status@.hash,
            SubmitStep::Wait => !has_failed(status@.state) && (!succeeded(status@.state)
                || status@.hash.len() == 0),
        },
{
    if relayer_state_is_failure(status.state.as_str()) {
        return SubmitStep::Failed(failure_text(metadata, " failed immediately:", status));
    }
    if relayer_state_is_success(status.state.as_str())
        && !status.transaction_hash.as_str().is_empty() {
        return SubmitStep::Done(status.transaction_hash.clone());
    }
    SubmitStep::Wait
}

/// The hash of a transaction that succeeded, if the relayer gives one.
pub fn terminal_hash(metadata: &str, status: &RelayerTransactionStatus) -> (r: Result<
    String,
    String,
>)
    ensures
        match r {
            Ok(hash) => status@.hash.len() > 0 && hash@ == status@.hash,
            Err(why) => status@.hash.len() == 0 && why@ == "relayer "@ + metadata@ + " reached "@
                + status@.state + " without an onchain transaction hash"@,
        },
{
    if status.transaction_hash.as_str().is_empty() {
        let mut why = join2("relayer ", metadata);
        why.append(" reached ");
        why.append(status.state.as_str());
        why.append(" without an onchain transaction hash");
        return Err(why);
    }
    Ok(status.transaction_hash.clone())
}

/// What a lookup of a transaction gave.
#[derive(Debug)]
pub enum Lookup {
    Found(RelayerTransactionStatus),
    /// The relayer knows no such transaction.
    Missing,
    /// The request failed.
    Failed(RelayerHttpError),
}

/// What follows a lookup.
#[derive(Debug)]
pub enum PollStep {
    Again,
    Done(RelayerTransactionStatus),
    Failed(String),
}

/// Waiting for a transaction to end.
#[derive(Debug)]
pub struct TransactionWait {
    pub polls: u64,
    pub last_state: Option<String>,
}

pub struct WaitView {
    pub polls: int,
    pub last_state: Option<Seq<char>>,
}

impl View for TransactionWait {
    type V = WaitView;

    open spec fn view(&self) -> WaitView {
        WaitView { polls: self.polls as int, last_state: opt_text(self.last_state) }
    }
}

pub enum LookupView {
    Found(StatusView),
    Missing,
    Failed(Seq<char>, bool),
}

impl View for Lookup {
    type V = LookupView;

    open spec fn view(&self) -> LookupView {
        match self {
            Lookup::Found(status) => LookupView::Found(status@),
            Lookup::Missing => LookupView::Missing,
            Lookup::Failed(e) => LookupView::Failed(e.message@, e.retryable),
        }
    }
}

pub enum PollView {
    Again,
    Done(StatusView),
    Failed(Seq<char>),
}

impl View for PollStep {
    type V = PollView;

    open spec fn view(&self) -> PollView {
        match self {
            PollStep::Again => PollView::Again,
            PollStep::Done(status) => PollView::Done(status@),
            PollStep::Failed(why) => PollView::Failed(why@),
        }
    }
}

pub open spec fn timeout_chars(
    metadata: Seq<char>,
    last_state: Option<Seq<char>>,
    transaction_id: Seq<char>,
) -> Seq<char> {
    "relayer "@ + metadata + " did not reach a terminal state within "@ + count_chars(60)
        + " seconds (last_state="@ + (match last_state {
        Some(state) => state,
        None => "STATE_UNKNOWN"@,
    }) + " tx_id="@ + transaction_id + ")"@
}

impl WaitView {
    /// After a lookup: an end of the transaction ends the waiting, a failure that may pass does not,
    /// and the last lookup ends it in any case.
    pub open spec fn looked_up(
        self,
        metadata: Seq<char>,
        transaction_id: Seq<char>,
        lookup: LookupView,
    ) -> (WaitView, PollView) {
        let polled = WaitView { polls: self.polls + 1, ..self };
        let (next, ended) = match lookup {
            LookupView::Found(status) => if succeeded(status.state) {
                (polled, Some(PollView::Done(status)))
            } else if has_failed(status.state) {
                (polled, Some(PollView::Failed(failure_chars(metadata, " failed:"@, status))))
            } else {
                (WaitView { last_state: Some(status.state), ..polled }, None)
            },
            LookupView::Missing => (
                polled,
                Some(
                    PollView::Failed(
                        "relayer returned no transaction records for "@ + transaction_id,
                    ),
                ),
            ),
            LookupView::Failed(message, retryable) => if retryable {
                (polled, None)
            } else {
                (polled, Some(PollView::Failed(message)))
            },
        };
        match ended {
            Some(step) => (next, step),
            None => if next.polls < RELAYER_MAX_POLLS {
                (next, PollView::Again)
            } else {
                (
                    next,
                    PollView::Failed(timeout_chars(metadata, next.last_state, transaction_id)),
                )
            },
        }
    }
}

impl TransactionWait {
    pub fn new() -> (r: TransactionWait)
        ensures
            r@ == (WaitView { polls: 0, last_state: None }),
    {
        TransactionWait { polls: 0, last_state: None }
    }

    /// What follows a lookup of the transaction.
    pub fn wait_for_terminal_transaction(
        &mut self,
        metadata: &str,
        transaction_id: &str,
        lookup: Lookup,
    ) -> (r: PollStep)
        requires
            old(self)@.polls < RELAYER_MAX_POLLS,
        ensures
            (final(self)@, r@) == old(self)@.looked_up(metadata@, transaction_id@, lookup@),
            r is Again ==> final(self)@.polls < RELAYER_MAX_POLLS,
    {
        self.polls = self.polls + 1;
        match lookup {
            Lookup::Found(status) => {
                if relayer_state_is_success(status.state.as_str()) {
                    return PollStep::Done(status);
                }
                if relayer_state_is_failure(status.state.as_str()) {
                    return PollStep::Failed(failure_text(metadata, " failed:", &status));
                }
                self.last_state = Some(status.state);
            },
            Lookup::Missing => {
                return PollStep::Failed(
                    join2("relayer returned no transaction records for ", transaction_id),
                );
            },
            Lookup::Failed(e) => {
                if !e.retryable {
                    return PollStep::Failed(e.message);
                }
            },
        }
        if self.polls < RELAYER_MAX_POLLS {
            return PollStep::Again;
        }
        let mut why = join2("relayer ", metadata);
        why.append(" did not reach a terminal state within ");
        why.append(count_text(RELAYER_MAX_POLLS * RELAYER_POLL_INTERVAL_SECS).as_str());
        why.append(" seconds (last_state=");
        match &self.last_state {
            Some(state) => why.append(state.as_str()),
            None => why.append("STATE_UNKNOWN"),
        }
        why.append(" tx_id=");
        why.append(transaction_id);
        why.append(")");
        PollStep::Failed(why)
    }
}

/// Waiting ends after at most thirty lookups.
pub proof fn law_waiting_ends(
    v: WaitView,
    metadata: Seq<char>,
    transaction_id: Seq<char>,
    lookup: LookupView,
)
    requires
        0 <= v.polls < RELAYER_MAX_POLLS,
    ensures
        v.looked_up(metadata, transaction_id, lookup).0.polls == v.polls + 1,
        v.polls + 1 == RELAYER_MAX_POLLS ==> !(v.looked_up(metadata, transaction_id, lookup).1
            is Again),
        v.looked_up(metadata, transaction_id, lookup).1 matches PollView::Done(status) ==> succeeded(
            status.state,
        ),
{
}

/// A transaction that fails with `STATE_FAILED` is sent again while retries are left; one that is
/// invalid is not, unless its name or identifiers say otherwise.
pub proof fn law_failed_transaction_is_retried(
    metadata: Seq<char>,
    immediately: bool,
    status: StatusView,
)
    requires
        status.state == "STATE_FAILED"@,
    ensures
        tells_failed_state(
            failure_chars(
                metadata,
                if immediately {
                    " failed immediately:"@
                } else {
                    " failed:"@
                },
                status,
            ),
        ),
{
    let how = if immediately {
        " failed immediately:"@
    } else {
        " failed:"@
    };
    let m = failure_chars(metadata, how, status);
    assert(m.subrange(0, "relayer "@.len() as int) =~= "relayer "@);
    assert(crate::text::parts::stands_at(m, "relayer "@, 0));
    let i = ("relayer "@ + metadata).len() as int;
    assert(m.subrange(i, i + how.len()) =~= how);
    assert(crate::text::parts::stands_at(m, how, i));
    let k = ("relayer "@ + metadata + how + " state="@).len() as int;
    assert(m.subrange(k, k + status.state.len()) =~= status.state);
    assert(crate::text::parts::stands_at(m, status.state, k));
}

impl CtfMerger {
    /// The request for a call under a nonce, signed.
    pub fn submit_safe_transaction(&self, call: &SafeCall, nonce: u64) -> (r: Result<
        RelayerSubmitRequest,
        MergerError,
    >)
        requires
            self.well_formed(),
        ensures
            match r {
                Ok(request) => exact_address(call.to@) is Ok && safe_signature(
                    self@.key,
                    safe_tx_hash(
                        self@.safe,
                        exact_address(call.to@)->Ok_0,
                        call.data@,
                        nonce as nat,
                    ),
                ) is Some && carries(request, self@, call.to@, call.data@, nonce as nat),
                Err(e) => match exact_address(call.to@) {
                    Err(fault) => e@ == MergerFault::Address(AddressRole::Target, fault),
                    Ok(to) => e@ == MergerFault::Signing && safe_signature(
                        self@.key,
                        safe_tx_hash(self@.safe, to, call.data@, nonce as nat),
                    ) is None,
                },
            },
    {
        let to = match parse_exact_address(call.to.as_str()) {
            Ok(to) => to,
            Err(e) => return Err(MergerError::Address(AddressRole::Target, e)),
        };
        let normalized_target = match normalize_address_hex(call.to.as_str()) {
            Ok(s) => s,
            Err(e) => return Err(MergerError::Address(AddressRole::Target, e)),
        };
        let data_digits = hex_encode(&call.data);
        let safe_tx_hash = self.compute_safe_tx_hash_for(&call.data, &to, nonce);
        let signature = match self.sign_hash(&safe_tx_hash) {
            Ok(signature) => signature,
            Err(e) => return Err(e),
        };
        let signature_digits = hex_encode(&signature);
        Ok(
            RelayerSubmitRequest {
                from: self.signer_address_hex.clone(),
                to: normalized_target,
                proxy_wallet: self.safe_address_hex.clone(),
                data: join2("0x", data_digits.as_str()),
                nonce: count_text(nonce),
                signature: join2("0x", signature_digits.as_str()),
                signature_params: RelayerSignatureParams::default(),
                tx_type: "SAFE".to_owned(),
            },
        )
    }

    /// Whether the keys that the relayer lists have the expected owner among them.
    pub fn validate_relayer_auth(&self, owners: &Vec<String>) -> (r: Result<(), String>)
        ensures
            match r {
                Ok(_) => lists_owner(owners@, self@.api_key_address),
                Err(why) => !lists_owner(owners@, self@.api_key_address) && why@ == if owners@.len()
                    == 0 {
                    "relayer auth succeeded but returned no API keys"@
                } else {
                    "relayer auth owner mismatch: expected "@ + self@.api_key_address
                        + " to be present in authenticated key list"@
                },
            },
    {
        if owners.len() == 0 {
            return Err("relayer auth succeeded but returned no API keys".to_owned());
        }
        let mut i: usize = 0;
        while i < owners.len()
            invariant
                i <= owners.len(),
                forall|j: int|
                    0 <= j < i ==> !text_ignoring_case(
                        (#[trigger] owners@[j])@,
                        self.relayer_api_key_address@,
                    ),
            decreases owners.len() - i,
        {
            if same_ignoring_ascii_case(
                owners[i].as_str(),
                self.relayer_api_key_address.as_str(),
            ) {
                return Ok(());
            }
            i += 1;
        }
        let mut why = join2(
            "relayer auth owner mismatch: expected ",
            self.relayer_api_key_address.as_str(),
        );
        why.append(" to be present in authenticated key list");
        Err(why)
    }

    /// Whether the Safe is deployed, as the relayer says.
    pub fn ensure_safe_deployed(&self, deployed: bool) -> (r: Result<(), String>)
        ensures
            match r {
                Ok(_) => deployed,
                Err(why) => !deployed && why@ == "relayer reports SAFE wallet "@ + self@.safe_hex
                    + " is not deployed"@,
            },
    {
        if !deployed {
            let mut why = join2("relayer reports SAFE wallet ", self.safe_address_hex.as_str());
            why.append(" is not deployed");
            return Err(why);
        }
        Ok(())
    }

    /// Where the relayer says whether the Safe is deployed.
    pub fn deployed_path(&self) -> (r: String)
        ensures
            r@ == "/deployed?address="@ + self@.safe_hex,
    {
        join2("/deployed?address=", self.safe_address_hex.as_str())
    }

    /// Where the relayer gives the next nonce of the Safe.
    pub fn nonce_path(&self) -> (r: String)
        ensures
            r@ == "/nonce?address="@ + self@.signer + "&type=SAFE"@,
    {
        let mut path = join2("/nonce?address=", self.signer_address_hex.as_str());
        path.append("&type=SAFE");
        path
    }

    /// The address of a request, and the headers under which it is sent.
    pub fn build_request(&self, path: &str, authenticated: bool) -> (r: (
        String,
        Vec<(&'static str, String)>,
    ))
        ensures
            r.0@ == self@.base_url + path@,
            !authenticated ==> r.1@.len() == 0,
            authenticated ==> r.1@.len() == 2 && r.1@[0].0@ == "RELAYER_API_KEY"@ && r.1@[0].1@
                == self@.api_key && r.1@[1].0@ == "RELAYER_API_KEY_ADDRESS"@ && r.1@[1].1@
                == self@.api_key_address,
    {
        let url = join2(self.relayer_base_url.as_str(), path);
        let mut headers: Vec<(&'static str, String)> = Vec::new();
        if authenticated {
            headers.push(("RELAYER_API_KEY", self.relayer_api_key.clone()));
            headers.push(("RELAYER_API_KEY_ADDRESS", self.relayer_api_key_address.clone()));
        }
        (url, headers)
    }
}

pub open spec fn lists_owner(owners: Seq<String>, owner: Seq<char>) -> bool {
    exists|i: int| 0 <= i < owners.len() && text_ignoring_case((#[trigger] owners[i])@, owner)
}

/// The nonce that the relayer answers with.
pub fn parse_safe_nonce(nonce: &str) -> (r: Result<u64, String>)
    ensures
        match r {
            Ok(n) => count_of(nonce@) == Some(n as int),
            Err(why) => count_of(nonce@) is None && why@
                == "SAFE nonce response contained invalid nonce "@ + nonce@,
        },
{
    match parse_count(nonce) {
        Some(n) => Ok(n),
        None => Err(join2("SAFE nonce response contained invalid nonce ", nonce)),
    }
}

} // verus!
