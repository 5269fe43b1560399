//! The ordering and supply-fixedness laws of the transform protocol, proved
//! over the account-list and instruction-list functions the builders'
//! contracts are stated with.

use crate::instruction::{
    spec_caller_block, spec_execute_accounts, spec_initialize_accounts, spec_output_chunk,
    spec_output_creation, spec_program_block, InstrView,
};
use crate::state::{spec_account_of, spec_supply_of, AccountEntry, SupplyEntry};
use vstd::prelude::*;

verus! {

/// Law: the creation instruction's account list has `3 + |inputs| +
/// |outputs|` slots; input account `k` stands at slot `3 + k` and output
/// account `k` at slot `3 + |inputs| + k`, each in the definition's own
/// iteration order.
pub proof fn lemma_initialize_account_layout(
    initializer: Seq<u8>,
    transform: Seq<u8>,
    inputs: Seq<AccountEntry>,
    outputs: Seq<AccountEntry>,
)
    ensures
        spec_initialize_accounts(initializer, transform, inputs, outputs).len() == 3 + inputs.len()
            + outputs.len(),
        forall|k: int|
            #![trigger inputs[k]]
            0 <= k < inputs.len() ==> spec_initialize_accounts(
                initializer,
                transform,
                inputs,
                outputs,
            )[3 + k] == (inputs[k].account@, false, true),
        forall|k: int|
            #![trigger outputs[k]]
            0 <= k < outputs.len() ==> spec_initialize_accounts(
                initializer,
                transform,
                inputs,
                outputs,
            )[3 + inputs.len() + k] == (outputs[k].account@, false, true),
{
}

/// Law: the execution instruction's account list has `4 + 2 * (|inputs| +
/// |outputs|)` slots, in the block order [caller inputs, program inputs,
/// caller outputs, program outputs], each block in the persisted state's
/// own iteration order.
pub proof fn lemma_execute_account_layout(
    caller: Seq<u8>,
    transform: Seq<u8>,
    authority: Seq<u8>,
    inputs: Seq<AccountEntry>,
    outputs: Seq<AccountEntry>,
    user_inputs: Seq<AccountEntry>,
    user_outputs: Seq<AccountEntry>,
)
    ensures
        spec_execute_accounts(
            caller,
            transform,
            authority,
            inputs,
            outputs,
            user_inputs,
            user_outputs,
        ).len() == 4 + 2 * (inputs.len() + outputs.len()),
        forall|k: int|
            #![trigger inputs[k]]
            0 <= k < inputs.len() ==> spec_execute_accounts(
                caller,
                transform,
                authority,
                inputs,
                outputs,
                user_inputs,
                user_outputs,
            )[4 + k] == (spec_account_of(user_inputs, inputs[k].asset@)@, false, true)
                && spec_execute_accounts(
                caller,
                transform,
                authority,
                inputs,
                outputs,
                user_inputs,
                user_outputs,
            )[4 + inputs.len() + k] == (inputs[k].account@, false, true),
        forall|k: int|
            #![trigger outputs[k]]
            0 <= k < outputs.len() ==> spec_execute_accounts(
                caller,
                transform,
                authority,
                inputs,
                outputs,
                user_inputs,
                user_outputs,
            )[4 + 2 * inputs.len() + k] == (
                spec_account_of(user_outputs, outputs[k].asset@)@,
                false,
                true,
            ) && spec_execute_accounts(
                caller,
                transform,
                authority,
                inputs,
                outputs,
                user_inputs,
                user_outputs,
            )[4 + 2 * inputs.len() + outputs.len() + k] == (outputs[k].account@, false, true),
{
}

/// Law: the execution account order is a pure function of the persisted
/// state: two argument mappings that resolve every state asset to the same
/// caller account yield the identical account list, whatever order their
/// own entries stand in.
pub proof fn lemma_execute_order_from_state(
    caller: Seq<u8>,
    transform: Seq<u8>,
    authority: Seq<u8>,
    inputs: Seq<AccountEntry>,
    outputs: Seq<AccountEntry>,
    user_inputs_a: Seq<AccountEntry>,
    user_outputs_a: Seq<AccountEntry>,
    user_inputs_b: Seq<AccountEntry>,
    user_outputs_b: Seq<AccountEntry>,
)
    requires
        forall|k: int|
            #![trigger inputs[k]]
            0 <= k < inputs.len() ==> spec_account_of(user_inputs_a, inputs[k].asset@)
                == spec_account_of(user_inputs_b, inputs[k].asset@),
        forall|k: int|
            #![trigger outputs[k]]
            0 <= k < outputs.len() ==> spec_account_of(user_outputs_a, outputs[k].asset@)
                == spec_account_of(user_outputs_b, outputs[k].asset@),
    ensures
        spec_execute_accounts(
            caller,
            transform,
            authority,
            inputs,
            outputs,
            user_inputs_a,
            user_outputs_a,
        ) == spec_execute_accounts(
            caller,
            transform,
            authority,
            inputs,
            outputs,
            user_inputs_b,
            user_outputs_b,
        ),
{
    assert(spec_caller_block(inputs, user_inputs_a) =~= spec_caller_block(inputs, user_inputs_b));
    assert(spec_caller_block(outputs, user_outputs_a) =~= spec_caller_block(
        outputs,
        user_outputs_b,
    ));
}

/// Law (supply fixedness): the output creation sequence emits, for output
/// `k`, the mint of the full declared supply of that asset at position
/// `6 * k + 4`, immediately followed at `6 * k + 5` by the revocation of
/// that same mint's authority, with no instruction for any other output in
/// between.
pub proof fn lemma_output_creation_positions(
    initializer: Seq<u8>,
    token_rent: u64,
    mint_rent: u64,
    outputs: Seq<AccountEntry>,
    supply: Seq<SupplyEntry>,
)
    ensures
        spec_output_creation(initializer, token_rent, mint_rent, outputs, supply).len() == 6
            * outputs.len(),
        forall|k: int|
            #![trigger outputs[k]]
            0 <= k < outputs.len() ==> spec_output_creation(
                initializer,
                token_rent,
                mint_rent,
                outputs,
                supply,
            )[6 * k + 4] == (InstrView::MintTo {
                mint: outputs[k].asset@,
                destination: outputs[k].account@,
                authority: initializer,
                amount: spec_supply_of(supply, outputs[k].asset@),
                decimals: 0,
            }) && spec_output_creation(
                initializer,
                token_rent,
                mint_rent,
                outputs,
                supply,
            )[6 * k + 5] == (InstrView::RevokeMintAuthority {
                mint: outputs[k].asset@,
                authority: initializer,
            }),
    decreases outputs.len(),
{
    if outputs.len() > 0 {
        lemma_output_creation_positions(initializer, token_rent, mint_rent, outputs.skip(1), supply);
        let chunk = spec_output_chunk(
            initializer,
            token_rent,
            mint_rent,
            outputs[0],
            spec_supply_of(supply, outputs[0].asset@),
        );
        let rest = spec_output_creation(initializer, token_rent, mint_rent, outputs.skip(1), supply);
        assert(chunk.len() == 6);
        assert(chunk[4] == (InstrView::MintTo {
            mint: outputs[0].asset@,
            destination: outputs[0].account@,
            authority: initializer,
            amount: spec_supply_of(supply, outputs[0].asset@),
            decimals: 0,
        }));
        assert(chunk[5] == (InstrView::RevokeMintAuthority {
            mint: outputs[0].asset@,
            authority: initializer,
        }));
        assert forall|k: int|
            0 <= k < outputs.len() implies spec_output_creation(
            initializer,
            token_rent,
            mint_rent,
            outputs,
            supply,
        )[6 * k + 4] == (InstrView::MintTo {
            mint: outputs[k].asset@,
            destination: outputs[k].account@,
            authority: initializer,
            amount: spec_supply_of(supply, outputs[k].asset@),
            decimals: 0,
        }) && spec_output_creation(
            initializer,
            token_rent,
            mint_rent,
            outputs,
            supply,
        )[6 * k + 5] == (InstrView::RevokeMintAuthority {
            mint: outputs[k].asset@,
            authority: initializer,
        }) by {
            if k > 0 {
                assert(outputs.skip(1)[k - 1] == outputs[k]);
                assert(spec_output_creation(
                    initializer,
                    token_rent,
                    mint_rent,
                    outputs,
                    supply,
                )[6 * k + 4] == rest[6 * (k - 1) + 4]);
                assert(spec_output_creation(
                    initializer,
                    token_rent,
                    mint_rent,
                    outputs,
                    supply,
                )[6 * k + 5] == rest[6 * (k - 1) + 5]);
            }
        }
    }
}

} // verus!
