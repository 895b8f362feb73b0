//! Recording the acknowledgement of an outbound batch.
use vstd::prelude::*;
use vstd::string::*;

use crate::query::{ack_status_key, spec_ack_key};
use crate::state::{ContractState, ContractStateView};
use crate::text::{bool_text, bools_text, decimal, push_bool_text, push_bools_text, u64_to_decimal};
use crate::types::{attr, attributes_response, lit, Env, Response, ResponseView, StdError};

verus! {

/// The record kept for an acknowledged batch: its execution code, its
/// execution status and the contracts' acknowledgements, in `Debug` form.
pub open spec fn ack_record(execution_code: u64, execution_status: bool, responses: Seq<bool>) -> Seq<char> {
    "execution_code "@ + decimal(execution_code as nat) + ", execution_status "@ + bool_text(execution_status)
        + ", contract_ack_responses "@ + bools_text(responses)
}

/// The response to an acknowledgement.
pub open spec fn ack_response(sender: Seq<char>, chain_type: u32, chain_id: Seq<char>, nonce: u64) -> ResponseView {
    attributes_response(
        seq![
            attr("sender"@, sender),
            attr("destination_chain_type"@, decimal(chain_type as nat)),
            attr("destination_chain_id"@, chain_id),
            attr("outbound_batch_nonce"@, decimal(nonce as nat)),
        ],
    )
}

/// Records the acknowledgement of an outbound batch under its acknowledgement key.
pub fn handle_out_bound_ack_request(
    state: &mut ContractState,
    env: &Env,
    sender: String,
    destination_chain_type: u32,
    destination_chain_id: String,
    outbound_batch_nonce: u64,
    contract_ack_responses: Vec<bool>,
    execution_code: u64,
    execution_status: bool,
) -> (res: Result<Response, StdError>)
    requires
        old(state).wf(),
    ensures
        final(state).wf(),
        final(state)@ == (ContractStateView {
            ack_status: old(state)@.ack_status.insert(
                spec_ack_key(destination_chain_id@, destination_chain_type as nat, outbound_batch_nonce as nat),
                ack_record(execution_code, execution_status, contract_ack_responses@),
            ),
            ..old(state)@
        }),
        res matches Ok(r) && r@ == ack_response(
            sender@,
            destination_chain_type,
            destination_chain_id@,
            outbound_batch_nonce,
        ),
{
    let ack_key = ack_status_key(&destination_chain_id, destination_chain_type as u64, outbound_batch_nonce);
    let mut execution_msg = lit("execution_code ");
    let code = u64_to_decimal(execution_code);
    execution_msg.append(code.as_str());
    execution_msg.append(", execution_status ");
    push_bool_text(&mut execution_msg, execution_status);
    execution_msg.append(", contract_ack_responses ");
    push_bools_text(&mut execution_msg, &contract_ack_responses);
    state.save_ack_status(ack_key, execution_msg);
    let ghost s = sender@;
    let ghost c = destination_chain_id@;
    let res = Response::new()
        .add_attribute(lit("sender"), sender)
        .add_attribute(lit("destination_chain_type"), u64_to_decimal(destination_chain_type as u64))
        .add_attribute(lit("destination_chain_id"), destination_chain_id)
        .add_attribute(lit("outbound_batch_nonce"), u64_to_decimal(outbound_batch_nonce));
    assert(res@.attributes =~= ack_response(s, destination_chain_type, c, outbound_batch_nonce).attributes);
    Ok(res)
}

} // verus!
