//! Where the arguments of a call stand, and when waiting for a transaction goes on.

use crate::crypto::big_endian;
use crate::trading::ctf_merge::relayer::{
    has_failed, law_terminal_states_are_apart, may_pass, succeeded, LookupView, PollView, WaitView,
};
use crate::trading::ctf_merge::{
    address_word, approval_call, exact_address, law_contracts_have_addresses,
    law_word_writes_number, lenient_address, merge_call, number_word, selector, zeros, MergeVenue,
    CTF_ADDRESS, NEG_RISK_ADAPTER_ADDRESS, USDC_ADDRESS,
};
use vstd::prelude::*;

verus! {

/// The argument number `n`, from zero, of a call that ends in `count` words.
pub open spec fn argument(call: Seq<u8>, count: int, n: int) -> Seq<u8> {
    let from = call.len() - 32 * (count - n);
    call.subrange(from, from + 32)
}

/// A merge names the collateral, no parent, the condition, where the partition stands, and the
/// amount in millionths; the partition, where it is said to stand, has two sets, one and two.
pub proof fn law_merge_calls_hold_their_arguments(condition: Seq<u8>, amount: nat)
    requires
        condition.len() == 32,
        amount * 1_000_000 <= u128::MAX,
    ensures
        ({
            let call = merge_call(condition, amount);
            &&& call.len() == selector(
                "mergePositions(address,bytes32,bytes32,uint256[],uint256)"@,
            ).len() + 8 * 32
            &&& argument(call, 8, 0).skip(12) == exact_address(USDC_ADDRESS@)->Ok_0
            &&& argument(call, 8, 1) == zeros(32)
            &&& argument(call, 8, 2) == condition
            &&& big_endian(argument(call, 8, 3)) == 5 * 32
            &&& big_endian(argument(call, 8, 4)) == amount * 1_000_000
            &&& big_endian(argument(call, 8, 5)) == 2
            &&& big_endian(argument(call, 8, 6)) == 1
            &&& big_endian(argument(call, 8, 7)) == 2
        }),
{
    law_contracts_have_addresses();
    law_word_writes_number(160);
    law_word_writes_number(amount * 1_000_000);
    law_word_writes_number(2);
    law_word_writes_number(1);
    let call = merge_call(condition, amount);
    let usdc = lenient_address(USDC_ADDRESS@);
    assert(usdc.len() == 20);
    assert(argument(call, 8, 0) =~= address_word(usdc));
    assert(address_word(usdc).skip(12) =~= usdc);
    assert(argument(call, 8, 1) =~= zeros(32));
    assert(argument(call, 8, 2) =~= condition);
    assert(argument(call, 8, 3) =~= number_word(160));
    assert(argument(call, 8, 4) =~= number_word(amount * 1_000_000));
    assert(argument(call, 8, 5) =~= number_word(2));
    assert(argument(call, 8, 6) =~= number_word(1));
    assert(argument(call, 8, 7) =~= number_word(2));
}

/// An approval names the operator, and says yes.
pub proof fn law_approval_calls_hold_their_arguments(operator: Seq<u8>)
    requires
        operator.len() == 20,
    ensures
        ({
            let call = approval_call(operator);
            &&& call.len() == selector("setApprovalForAll(address,bool)"@).len() + 2 * 32
            &&& argument(call, 2, 0).skip(12) == operator
            &&& argument(call, 2, 0).take(12) == zeros(12)
            &&& big_endian(argument(call, 2, 1)) == 1
        }),
{
    law_word_writes_number(1);
    let call = approval_call(operator);
    assert(argument(call, 2, 0) =~= address_word(operator));
    assert(address_word(operator).skip(12) =~= operator);
    assert(address_word(operator).take(12) =~= zeros(12));
    assert(argument(call, 2, 1) =~= number_word(1));
}

/// Markets with negative risk are merged by their adapter, all others by the contract that holds the
/// tokens.
pub proof fn law_venues_have_their_contract()
    ensures
        MergeVenue::NegRisk.target_chars() == NEG_RISK_ADAPTER_ADDRESS@,
        MergeVenue::Standard.target_chars() == CTF_ADDRESS@,
{
}

/// A transaction is waited for until it is found mined or confirmed, or found failed or invalid, or
/// not found, or asking fails for good; or for thirty lookups.
pub proof fn law_waiting_goes_on_until_an_end(
    v: WaitView,
    metadata: Seq<char>,
    transaction_id: Seq<char>,
    lookup: LookupView,
)
    ensures
        ({
            let (after, step) = v.looked_up(metadata, transaction_id, lookup);
            let state = lookup->Found_0.state;
            let good = lookup is Found && (state == "STATE_MINED"@ || state == "STATE_CONFIRMED"@);
            let bad = lookup is Found && (state == "STATE_FAILED"@ || state == "STATE_INVALID"@);
            let over = lookup is Missing || (lookup is Failed && !lookup->Failed_1);
            &&& step is Done <==> good
            &&& step is Done ==> step->Done_0 == lookup->Found_0
            &&& bad || over ==> step is Failed
            &&& step is Again <==> !good && !bad && !over && v.polls + 1 < 30
            &&& after.polls == v.polls + 1
            &&& lookup is Found && !good && !bad ==> after.last_state == Some(state)
            &&& !(lookup is Found) ==> after.last_state == v.last_state
        }),
{
    if let LookupView::Found(status) = lookup {
        law_terminal_states_are_apart(status.state);
        assert(succeeded(status.state) == (status.state == "STATE_MINED"@ || status.state
            == "STATE_CONFIRMED"@));
        assert(has_failed(status.state) == (status.state == "STATE_FAILED"@ || status.state
            == "STATE_INVALID"@));
    }
}

/// A refusal may pass where the server timed out, was asked too often, or is down for now; no other
/// may.
pub proof fn law_only_passing_refusals_are_tried_again(status: int)
    ensures
        may_pass(status) ==> status >= 400,
        may_pass(status) && status < 500 ==> status == 408 || status == 429,
        may_pass(status) && status >= 500 ==> status <= 504 && status != 501,
        status == 408 || status == 429 || status == 500 || (502 <= status <= 504) ==> may_pass(
            status,
        ),
{
}

} // verus!
