//! Instruction builders for the transform lifecycle: the exact, ordered
//! instruction sequences that create a transform and that execute it, and
//! the positional account-list contracts each emitted instruction satisfies.
//!
//! Instructions are modeled as data: the asset-primitive operations carry
//! their parameters, and the program's own operation carries its positional
//! account list and a tagged payload.

use crate::address::Address;
use crate::authority::{program_authority, spec_program_authority};
use crate::error::{LookupPhase, TokenitisError};
use crate::state::{
    lemma_first_missing_extend, lemma_first_missing_found, lemma_first_missing_supply_extend,
    lemma_first_missing_supply_found, lookup_account, lookup_supply, program_state_len,
    spec_account_of, spec_first_missing, spec_first_missing_supply, spec_program_state_len,
    spec_supply_of, AccountEntry, ExecuteArgs, InitializeArgs, SupplyEntry, Tokenitis,
};
use vstd::prelude::*;

verus! {

/// Serialized width of a token account of the asset primitive.
pub const TOKEN_ACCOUNT_LEN: u64 = 165;

/// Serialized width of a mint of the asset primitive.
pub const MINT_LEN: u64 = 82;

/// The well-known address of the asset-primitive (token) program.
pub open spec fn spec_token_program_id() -> Seq<u8> {
    seq![
        6u8, 221u8, 246u8, 225u8, 215u8, 101u8, 161u8, 147u8, 217u8, 203u8, 225u8, 70u8, 206u8,
        235u8, 121u8, 172u8, 28u8, 180u8, 133u8, 237u8, 95u8, 91u8, 55u8, 145u8, 58u8, 140u8,
        245u8, 133u8, 126u8, 255u8, 0u8, 169u8,
    ]
}

/// The address of the asset-primitive (token) program.
pub fn token_program_address() -> (r: Address)
    ensures
        r@ == spec_token_program_id(),
{
    let bytes: [u8; 32] = [
        6, 221, 246, 225, 215, 101, 161, 147, 217, 203, 225, 70, 206, 235, 121, 172, 28, 180, 133,
        237, 95, 91, 55, 145, 58, 140, 245, 133, 126, 255, 0, 169,
    ];
    proof {
        assert(bytes@ =~= spec_token_program_id());
    }
    Address { bytes }
}

/// One account reference in the positional account list of a program
/// instruction.
#[derive(Clone, Copy, Debug, PartialEq, Eq)]
pub struct AccountMeta {
    pub pubkey: Address,
    pub is_signer: bool,
    pub is_writable: bool,
}

/// The two operations of this program, tagged for the host dispatcher, each
/// carrying its full arguments so the on-ledger validator can re-derive the
/// account correspondence.
#[derive(Clone, Debug, PartialEq)]
pub enum InstructionType {
    CreateTransform(InitializeArgs),
    ExecuteTransform(ExecuteArgs),
}

/// One ledger instruction, as emitted by the builders: either an operation
/// of the asset primitive or the host system (carried with its parameters),
/// or an instruction of this program itself.
#[derive(Clone, Debug, PartialEq)]
pub enum Instruction {
    /// Allocate `new_account` with `space` bytes, funded by `payer` and owned
    /// by program `owner`.
    CreateAccount { payer: Address, new_account: Address, rent: u64, space: u64, owner: Address },
    /// Initialize `mint` with `authority` as its mint authority.
    InitializeMint {
        mint: Address,
        authority: Address,
        freeze_authority: Option<Address>,
        decimals: u8,
    },
    /// Initialize `account` as a token account of `mint` owned by `authority`.
    InitializeAccount { account: Address, mint: Address, authority: Address },
    /// Mint `amount` units of `mint` to `destination`, signed by `authority`.
    MintTo { mint: Address, destination: Address, authority: Address, amount: u64, decimals: u8 },
    /// Remove the mint authority of `mint` entirely, fixing its supply.
    RevokeMintAuthority { mint: Address, authority: Address },
    /// An instruction of this program, with its positional account list.
    Transform { program_id: Address, accounts: Vec<AccountMeta>, payload: InstructionType },
}

/// Mathematical image of an account-meta list: (address bytes, is_signer,
/// is_writable) per slot.
pub open spec fn metas_view(s: Seq<AccountMeta>) -> Seq<(Seq<u8>, bool, bool)> {
    s.map_values(|m: AccountMeta| (m.pubkey@, m.is_signer, m.is_writable))
}

/// Mathematical image of an ordered asset mapping: (asset bytes, account
/// bytes) per entry.
pub open spec fn entries_view(s: Seq<AccountEntry>) -> Seq<(Seq<u8>, Seq<u8>)> {
    s.map_values(|e: AccountEntry| (e.asset@, e.account@))
}

/// Mathematical image of an optional address.
pub open spec fn opt_addr_view(o: Option<Address>) -> Option<Seq<u8>> {
    match o {
        Some(a) => Some(a@),
        None => None,
    }
}

/// Mathematical image of a program-instruction payload.
pub enum PayloadView {
    CreateTransform { inputs: Seq<(Seq<u8>, Seq<u8>)>, outputs: Seq<(Seq<u8>, Seq<u8>)> },
    ExecuteTransform { user_inputs: Seq<(Seq<u8>, Seq<u8>)>, user_outputs: Seq<(Seq<u8>, Seq<u8>)> },
}

impl View for InstructionType {
    type V = PayloadView;

    open spec fn view(&self) -> PayloadView {
        match self {
            InstructionType::CreateTransform(a) => PayloadView::CreateTransform {
                inputs: entries_view(a.inputs@),
                outputs: entries_view(a.outputs@),
            },
            InstructionType::ExecuteTransform(a) => PayloadView::ExecuteTransform {
                user_inputs: entries_view(a.user_inputs@),
                user_outputs: entries_view(a.user_outputs@),
            },
        }
    }
}

/// Mathematical image of one ledger instruction.
pub enum InstrView {
    CreateAccount { payer: Seq<u8>, new_account: Seq<u8>, rent: u64, space: u64, owner: Seq<u8> },
    InitializeMint {
        mint: Seq<u8>,
        authority: Seq<u8>,
        freeze_authority: Option<Seq<u8>>,
        decimals: u8,
    },
    InitializeAccount { account: Seq<u8>, mint: Seq<u8>, authority: Seq<u8> },
    MintTo { mint: Seq<u8>, destination: Seq<u8>, authority: Seq<u8>, amount: u64, decimals: u8 },
    RevokeMintAuthority { mint: Seq<u8>, authority: Seq<u8> },
    Transform { program_id: Seq<u8>, accounts: Seq<(Seq<u8>, bool, bool)>, payload: PayloadView },
}

impl View for Instruction {
    type V = InstrView;

    open spec fn view(&self) -> InstrView {
        match self {
            Instruction::CreateAccount { payer, new_account, rent, space, owner } => (
            InstrView::CreateAccount {
                payer: payer@,
                new_account: new_account@,
                rent: *rent,
                space: *space,
                owner: owner@,
            }),
            Instruction::InitializeMint { mint, authority, freeze_authority, decimals } => (
            InstrView::InitializeMint {
                mint: mint@,
                authority: authority@,
                freeze_authority: opt_addr_view(*freeze_authority),
                decimals: *decimals,
            }),
            Instruction::InitializeAccount { account, mint, authority } => (
            InstrView::InitializeAccount { account: account@, mint: mint@, authority: authority@ }),
            Instruction::MintTo { mint, destination, authority, amount, decimals } => (
            InstrView::MintTo {
                mint: mint@,
                destination: destination@,
                authority: authority@,
                amount: *amount,
                decimals: *decimals,
            }),
            Instruction::RevokeMintAuthority { mint, authority } => (
            InstrView::RevokeMintAuthority { mint: mint@, authority: authority@ }),
            Instruction::Transform { program_id, accounts, payload } => (InstrView::Transform {
                program_id: program_id@,
                accounts: metas_view(accounts@),
                payload: payload@,
            }),
        }
    }
}

/// Mathematical image of an instruction list.
pub open spec fn insts_view(s: Seq<Instruction>) -> Seq<InstrView> {
    s.map_values(|i: Instruction| i@)
}

/// The two instructions that create and initialize one token account.
pub open spec fn spec_create_token_account(
    mint: Seq<u8>,
    token_account: Seq<u8>,
    authority: Seq<u8>,
    rent: u64,
) -> Seq<InstrView> {
    seq![
        (InstrView::CreateAccount {
            payer: authority,
            new_account: token_account,
            rent,
            space: TOKEN_ACCOUNT_LEN,
            owner: spec_token_program_id(),
        }),
        (InstrView::InitializeAccount { account: token_account, mint, authority }),
    ]
}

/// The two instructions that create and initialize one mint.
pub open spec fn spec_create_token_mint(
    mint: Seq<u8>,
    mint_authority: Seq<u8>,
    freeze_authority: Option<Seq<u8>>,
    decimals: u8,
    rent: u64,
) -> Seq<InstrView> {
    seq![
        (InstrView::CreateAccount {
            payer: mint_authority,
            new_account: mint,
            rent,
            space: MINT_LEN,
            owner: spec_token_program_id(),
        }),
        (InstrView::InitializeMint { mint, authority: mint_authority, freeze_authority, decimals }),
    ]
}

/// The per-input creation sequence: one [create-account, initialize-account]
/// pair per input entry, in iteration order.
pub open spec fn spec_input_creation(
    initializer: Seq<u8>,
    rent: u64,
    inputs: Seq<AccountEntry>,
) -> Seq<InstrView>
    decreases inputs.len(),
{
    if inputs.len() == 0 {
        Seq::<InstrView>::empty()
    } else {
        spec_create_token_account(inputs[0].asset@, inputs[0].account@, initializer, rent)
            + spec_input_creation(initializer, rent, inputs.skip(1))
    }
}

/// The six instructions that create one output: mint creation, token-account
/// creation, the full-supply mint, and the authority revocation that fixes
/// the supply.
pub open spec fn spec_output_chunk(
    initializer: Seq<u8>,
    token_rent: u64,
    mint_rent: u64,
    e: AccountEntry,
    amount: u64,
) -> Seq<InstrView> {
    spec_create_token_mint(e.asset@, initializer, None, 0, mint_rent) + spec_create_token_account(
        e.asset@,
        e.account@,
        initializer,
        token_rent,
    ) + seq![
        (InstrView::MintTo {
            mint: e.asset@,
            destination: e.account@,
            authority: initializer,
            amount,
            decimals: 0,
        }),
        (InstrView::RevokeMintAuthority { mint: e.asset@, authority: initializer }),
    ]
}

/// The per-output creation sequence, in iteration order.
pub open spec fn spec_output_creation(
    initializer: Seq<u8>,
    token_rent: u64,
    mint_rent: u64,
    outputs: Seq<AccountEntry>,
    supply: Seq<SupplyEntry>,
) -> Seq<InstrView>
    decreases outputs.len(),
{
    if outputs.len() == 0 {
        Seq::<InstrView>::empty()
    } else {
        spec_output_chunk(
            initializer,
            token_rent,
            mint_rent,
            outputs[0],
            spec_supply_of(supply, outputs[0].asset@),
        ) + spec_output_creation(initializer, token_rent, mint_rent, outputs.skip(1), supply)
    }
}

/// The positional account list of the creation instruction: token program,
/// transform account, initializer, then each input account and each output
/// account in iteration order.
pub open spec fn spec_initialize_accounts(
    initializer: Seq<u8>,
    transform: Seq<u8>,
    inputs: Seq<AccountEntry>,
    outputs: Seq<AccountEntry>,
) -> Seq<(Seq<u8>, bool, bool)> {
    seq![
        (spec_token_program_id(), false, false),
        (transform, false, true),
        (initializer, true, false),
    ] + spec_program_block(inputs) + spec_program_block(outputs)
}

/// One caller-side account block: for each state entry, the caller's account
/// for that asset, in the state's own iteration order.
pub open spec fn spec_caller_block(
    entries: Seq<AccountEntry>,
    user: Seq<AccountEntry>,
) -> Seq<(Seq<u8>, bool, bool)> {
    entries.map_values(|e: AccountEntry| (spec_account_of(user, e.asset@)@, false, true))
}

/// One program-side account block, in the state's own iteration order.
pub open spec fn spec_program_block(entries: Seq<AccountEntry>) -> Seq<(Seq<u8>, bool, bool)> {
    entries.map_values(|e: AccountEntry| (e.account@, false, true))
}

/// `metas_view` distributes over push.
pub proof fn lemma_metas_view_push(s: Seq<AccountMeta>, m: AccountMeta)
    ensures
        metas_view(s.push(m)) == metas_view(s).push((m.pubkey@, m.is_signer, m.is_writable)),
{
    assert(metas_view(s.push(m)) =~= metas_view(s).push((m.pubkey@, m.is_signer, m.is_writable)));
}

/// `metas_view` distributes over concatenation.
pub proof fn lemma_metas_view_concat(a: Seq<AccountMeta>, b: Seq<AccountMeta>)
    ensures
        metas_view(a + b) == metas_view(a) + metas_view(b),
{
    assert(metas_view(a + b) =~= metas_view(a) + metas_view(b));
}

/// `insts_view` distributes over push.
pub proof fn lemma_insts_view_push(s: Seq<Instruction>, i: Instruction)
    ensures
        insts_view(s.push(i)) == insts_view(s).push(i@),
{
    assert(insts_view(s.push(i)) =~= insts_view(s).push(i@));
}

/// `insts_view` distributes over concatenation.
pub proof fn lemma_insts_view_concat(a: Seq<Instruction>, b: Seq<Instruction>)
    ensures
        insts_view(a + b) == insts_view(a) + insts_view(b),
{
    assert(insts_view(a + b) =~= insts_view(a) + insts_view(b));
}

/// One more state entry appends the caller's account for its asset.
pub proof fn lemma_caller_block_push(s: Seq<AccountEntry>, u: Seq<AccountEntry>, e: AccountEntry)
    ensures
        spec_caller_block(s.push(e), u) == spec_caller_block(s, u).push(
            (spec_account_of(u, e.asset@)@, false, true),
        ),
{
    assert(spec_caller_block(s.push(e), u) =~= spec_caller_block(s, u).push(
        (spec_account_of(u, e.asset@)@, false, true),
    ));
}

/// One more state entry appends its program-side account.
pub proof fn lemma_program_block_push(s: Seq<AccountEntry>, e: AccountEntry)
    ensures
        spec_program_block(s.push(e)) == spec_program_block(s).push((e.account@, false, true)),
{
    assert(spec_program_block(s.push(e)) =~= spec_program_block(s).push(
        (e.account@, false, true),
    ));
}

/// The positional account list of the execution instruction: token program,
/// transform account, program authority, caller, then the four blocks
/// [caller inputs, program inputs, caller outputs, program outputs], each in
/// the persisted state's iteration order.
pub open spec fn spec_execute_accounts(
    caller: Seq<u8>,
    transform: Seq<u8>,
    authority: Seq<u8>,
    inputs: Seq<AccountEntry>,
    outputs: Seq<AccountEntry>,
    user_inputs: Seq<AccountEntry>,
    user_outputs: Seq<AccountEntry>,
) -> Seq<(Seq<u8>, bool, bool)> {
    seq![
        (spec_token_program_id(), false, false),
        (transform, false, false),
        (authority, false, false),
        (caller, true, false),
    ] + spec_caller_block(inputs, user_inputs) + spec_program_block(inputs) + spec_caller_block(
        outputs,
        user_outputs,
    ) + spec_program_block(outputs)
}

/// Appending one input entry appends its two creation instructions.
pub proof fn lemma_input_creation_snoc(
    initializer: Seq<u8>,
    rent: u64,
    inputs: Seq<AccountEntry>,
    e: AccountEntry,
)
    ensures
        spec_input_creation(initializer, rent, inputs.push(e)) == spec_input_creation(
            initializer,
            rent,
            inputs,
        ) + spec_create_token_account(e.asset@, e.account@, initializer, rent),
    decreases inputs.len(),
{
    if inputs.len() == 0 {
        assert(inputs.push(e)[0] == e);
        assert(inputs.push(e).skip(1) =~= Seq::<AccountEntry>::empty());
        assert(spec_input_creation(initializer, rent, inputs.push(e).skip(1))
            =~= Seq::<InstrView>::empty());
        assert(spec_input_creation(initializer, rent, inputs.push(e)) =~= spec_input_creation(
            initializer,
            rent,
            inputs,
        ) + spec_create_token_account(e.asset@, e.account@, initializer, rent));
    } else {
        assert(inputs.push(e)[0] == inputs[0]);
        assert(inputs.push(e).skip(1) =~= inputs.skip(1).push(e));
        lemma_input_creation_snoc(initializer, rent, inputs.skip(1), e);
        assert(spec_input_creation(initializer, rent, inputs.push(e).skip(1))
            == spec_input_creation(initializer, rent, inputs.skip(1).push(e)));
        assert(spec_input_creation(initializer, rent, inputs.push(e)) =~= spec_input_creation(
            initializer,
            rent,
            inputs,
        ) + spec_create_token_account(e.asset@, e.account@, initializer, rent));
    }
}

/// Appending one output entry appends its six creation instructions.
pub proof fn lemma_output_creation_snoc(
    initializer: Seq<u8>,
    token_rent: u64,
    mint_rent: u64,
    outputs: Seq<AccountEntry>,
    supply: Seq<SupplyEntry>,
    e: AccountEntry,
)
    ensures
        spec_output_creation(initializer, token_rent, mint_rent, outputs.push(e), supply)
            == spec_output_creation(initializer, token_rent, mint_rent, outputs, supply)
            + spec_output_chunk(
            initializer,
            token_rent,
            mint_rent,
            e,
            spec_supply_of(supply, e.asset@),
        ),
    decreases outputs.len(),
{
    if outputs.len() == 0 {
        assert(outputs.push(e)[0] == e);
        assert(outputs.push(e).skip(1) =~= Seq::<AccountEntry>::empty());
        assert(spec_output_creation(
            initializer,
            token_rent,
            mint_rent,
            outputs.push(e).skip(1),
            supply,
        ) =~= Seq::<InstrView>::empty());
        assert(spec_output_creation(initializer, token_rent, mint_rent, outputs.push(e), supply)
            =~= spec_output_creation(initializer, token_rent, mint_rent, outputs, supply)
            + spec_output_chunk(
            initializer,
            token_rent,
            mint_rent,
            e,
            spec_supply_of(supply, e.asset@),
        ));
    } else {
        assert(outputs.push(e)[0] == outputs[0]);
        assert(outputs.push(e).skip(1) =~= outputs.skip(1).push(e));
        lemma_output_creation_snoc(initializer, token_rent, mint_rent, outputs.skip(1), supply, e);
        assert(spec_output_creation(
            initializer,
            token_rent,
            mint_rent,
            outputs.push(e).skip(1),
            supply,
        ) == spec_output_creation(
            initializer,
            token_rent,
            mint_rent,
            outputs.skip(1).push(e),
            supply,
        ));
        assert(spec_output_creation(initializer, token_rent, mint_rent, outputs.push(e), supply)
            =~= spec_output_creation(initializer, token_rent, mint_rent, outputs, supply)
            + spec_output_chunk(
            initializer,
            token_rent,
            mint_rent,
            e,
            spec_supply_of(supply, e.asset@),
        ));
    }
}

/// The check-then-apply discipline of every state-changing instruction of
/// this program: `execute` is invoked only after `validate` succeeds, and
/// either failure aborts the enclosing instruction.
pub trait TokenitisInstruction {
    fn validate(&self) -> Result<(), TokenitisError>;

    fn execute(&mut self) -> Result<(), TokenitisError>;
}

impl InstructionType {
    /// Creation instructions for the program-side input token accounts: one
    /// [create-account, initialize-account] pair per input, in the
    /// definition's iteration order.
    pub fn create_transform_input_accounts(
        initializer: &Address,
        spl_token_rent: u64,
        args: InitializeArgs,
    ) -> (r: Result<Vec<Instruction>, TokenitisError>)
        ensures
            r matches Ok(v) && insts_view(v@) == spec_input_creation(
                initializer@,
                spl_token_rent,
                args.inputs@,
            ),
    {
        let mut instructions: Vec<Instruction> = Vec::new();
        proof {
            assert(args.inputs@.take(0) =~= Seq::<AccountEntry>::empty());
            assert(insts_view(instructions@) =~= Seq::<InstrView>::empty());
            assert(spec_input_creation(initializer@, spl_token_rent, args.inputs@.take(0))
                =~= Seq::<InstrView>::empty());
        }
        let n = args.inputs.len();
        let mut i: usize = 0;
        while i < n
            invariant
                i <= n,
                n == args.inputs@.len(),
                insts_view(instructions@) == spec_input_creation(
                    initializer@,
                    spl_token_rent,
                    args.inputs@.take(i as int),
                ),
            decreases n - i,
        {
            let e = args.inputs[i];
            let ghost pre = instructions@;
            let mut pair = match Self::create_spl_token_account(
                &e.asset,
                &e.account,
                initializer,
                spl_token_rent,
            ) {
                Ok(p) => p,
                Err(er) => {
                    return Err(er);
                },
            };
            let ghost pair_view = pair@;
            instructions.append(&mut pair);
            proof {
                lemma_insts_view_concat(pre, pair_view);
                lemma_input_creation_snoc(
                    initializer@,
                    spl_token_rent,
                    args.inputs@.take(i as int),
                    e,
                );
                assert(args.inputs@.take(i as int).push(e) =~= args.inputs@.take(i as int + 1));
            }
            i = i + 1;
        }
        proof {
            assert(args.inputs@.take(n as int) =~= args.inputs@);
        }
        Ok(instructions)
    }

    /// Creation instructions for the outputs: per output, in iteration
    /// order, mint creation, token-account creation, a mint of the full
    /// declared supply, and the authority revocation that fixes the supply.
    /// Fails with a supply lookup failure on the first output asset absent
    /// from `output_supply`.
    pub fn create_trarnsform_output_accounts(
        initializer: &Address,
        spl_token_rent: u64,
        spl_mint_rent: u64,
        args: InitializeArgs,
        output_supply: Vec<SupplyEntry>,
    ) -> (r: Result<Vec<Instruction>, TokenitisError>)
        ensures
            spec_first_missing_supply(args.outputs@, output_supply@) matches Some(a) ==> r
                == Err::<Vec<Instruction>, TokenitisError>(
                TokenitisError::LookupFailure { asset: a, phase: LookupPhase::OutputSupply },
            ),
            spec_first_missing_supply(args.outputs@, output_supply@) is None ==> (r matches Ok(v)
                && insts_view(v@) == spec_output_creation(
                initializer@,
                spl_token_rent,
                spl_mint_rent,
                args.outputs@,
                output_supply@,
            )),
    {
        let mut instructions: Vec<Instruction> = Vec::new();
        proof {
            assert(args.outputs@.take(0) =~= Seq::<AccountEntry>::empty());
            assert(insts_view(instructions@) =~= Seq::<InstrView>::empty());
            assert(spec_output_creation(
                initializer@,
                spl_token_rent,
                spl_mint_rent,
                args.outputs@.take(0),
                output_supply@,
            ) =~= Seq::<InstrView>::empty());
        }
        let n = args.outputs.len();
        let mut i: usize = 0;
        while i < n
            invariant
                i <= n,
                n == args.outputs@.len(),
                spec_first_missing_supply(args.outputs@.take(i as int), output_supply@) is None,
                insts_view(instructions@) == spec_output_creation(
                    initializer@,
                    spl_token_rent,
                    spl_mint_rent,
                    args.outputs@.take(i as int),
                    output_supply@,
                ),
            decreases n - i,
        {
            let e = args.outputs[i];
            let amount = match lookup_supply(&output_supply, &e.asset) {
                Some(a) => a,
                None => {
                    proof {
                        lemma_first_missing_supply_found(args.outputs@, output_supply@, i as int);
                    }
                    return Err(
                        TokenitisError::LookupFailure {
                            asset: e.asset,
                            phase: LookupPhase::OutputSupply,
                        },
                    );
                },
            };
            let ghost pre = instructions@;
            let mut mint_pair = match Self::create_spl_token_mint(
                &e.asset,
                initializer,
                None,
                0,
                spl_mint_rent,
            ) {
                Ok(p) => p,
                Err(er) => {
                    return Err(er);
                },
            };
            let ghost mint_pair_view = mint_pair@;
            instructions.append(&mut mint_pair);
            let ghost g1 = instructions@;
            let mut account_pair = match Self::create_spl_token_account(
                &e.asset,
                &e.account,
                initializer,
                spl_token_rent,
            ) {
                Ok(p) => p,
                Err(er) => {
                    return Err(er);
                },
            };
            let ghost account_pair_view = account_pair@;
            instructions.append(&mut account_pair);
            let ghost g2 = instructions@;
            instructions.push(
                Instruction::MintTo {
                    mint: e.asset,
                    destination: e.account,
                    authority: *initializer,
                    amount,
                    decimals: 0,
                },
            );
            let ghost g3 = instructions@;
            instructions.push(
                Instruction::RevokeMintAuthority { mint: e.asset, authority: *initializer },
            );
            proof {
                let mt = Instruction::MintTo {
                    mint: e.asset,
                    destination: e.account,
                    authority: *initializer,
                    amount,
                    decimals: 0,
                };
                let rv = Instruction::RevokeMintAuthority {
                    mint: e.asset,
                    authority: *initializer,
                };
                lemma_insts_view_concat(pre, mint_pair_view);
                lemma_insts_view_concat(g1, account_pair_view);
                lemma_insts_view_push(g2, mt);
                lemma_insts_view_push(g3, rv);
                assert(insts_view(instructions@) == insts_view(pre) + insts_view(mint_pair_view)
                    + insts_view(account_pair_view) + seq![mt@, rv@]) by {
                    assert(insts_view(pre) + insts_view(mint_pair_view) + insts_view(
                        account_pair_view,
                    ) + seq![mt@, rv@] =~= ((insts_view(pre) + insts_view(mint_pair_view)
                        + insts_view(account_pair_view)).push(mt@)).push(rv@));
                }
                assert(insts_view(pre) + insts_view(mint_pair_view) + insts_view(account_pair_view)
                    + seq![mt@, rv@] =~= insts_view(pre) + spec_output_chunk(
                    initializer@,
                    spl_token_rent,
                    spl_mint_rent,
                    e,
                    amount,
                ));
                lemma_output_creation_snoc(
                    initializer@,
                    spl_token_rent,
                    spl_mint_rent,
                    args.outputs@.take(i as int),
                    output_supply@,
                    e,
                );
                assert(args.outputs@.take(i as int).push(e) =~= args.outputs@.take(i as int + 1));
                lemma_first_missing_supply_extend(args.outputs@, output_supply@, i as int);
            }
            i = i + 1;
        }
        proof {
            assert(args.outputs@.take(n as int) =~= args.outputs@);
        }
        Ok(instructions)
    }

    /// The creation sequence of the transform itself: allocate the persisted
    /// state account (sized by the fixed-width record function and owned by
    /// this program), then the tagged creation instruction whose account
    /// list is [token program, transform, initializer, inputs..., outputs...].
    pub fn initialize_tokenitis(
        initializer: &Address,
        transform: &Address,
        program_id: &Address,
        tokenitis_rent: u64,
        args: InitializeArgs,
    ) -> (r: Result<Vec<Instruction>, TokenitisError>)
        requires
            spec_program_state_len(args.inputs@.len() as int, args.outputs@.len() as int)
                <= u64::MAX,
        ensures
            r matches Ok(v) && {
                &&& v@.len() == 2
                &&& v@[0]@ == (InstrView::CreateAccount {
                    payer: initializer@,
                    new_account: transform@,
                    rent: tokenitis_rent,
                    space: spec_program_state_len(
                        args.inputs@.len() as int,
                        args.outputs@.len() as int,
                    ) as u64,
                    owner: program_id@,
                })
                &&& v@[1]@ == (InstrView::Transform {
                    program_id: program_id@,
                    accounts: spec_initialize_accounts(
                        initializer@,
                        transform@,
                        args.inputs@,
                        args.outputs@,
                    ),
                    payload: PayloadView::CreateTransform {
                        inputs: entries_view(args.inputs@),
                        outputs: entries_view(args.outputs@),
                    },
                })
            },
    {
        let mut accounts: Vec<AccountMeta> = Vec::new();
        accounts.push(
            AccountMeta { pubkey: token_program_address(), is_signer: false, is_writable: false },
        );
        accounts.push(AccountMeta { pubkey: *transform, is_signer: false, is_writable: true });
        accounts.push(AccountMeta { pubkey: *initializer, is_signer: true, is_writable: false });
        let ghost header = metas_view(accounts@);
        proof {
            assert(args.inputs@.take(0) =~= Seq::<AccountEntry>::empty());
            assert(spec_program_block(Seq::<AccountEntry>::empty()) =~= Seq::<
                (Seq<u8>, bool, bool),
            >::empty());
            assert(header + spec_program_block(args.inputs@.take(0)) =~= header);
        }
        let n = args.inputs.len();
        let mut i: usize = 0;
        while i < n
            invariant
                i <= n,
                n == args.inputs@.len(),
                metas_view(accounts@) == header + spec_program_block(
                    args.inputs@.take(i as int),
                ),
            decreases n - i,
        {
            let e = args.inputs[i];
            let ghost pre = accounts@;
            accounts.push(AccountMeta { pubkey: e.account, is_signer: false, is_writable: true });
            proof {
                lemma_metas_view_push(
                    pre,
                    AccountMeta { pubkey: e.account, is_signer: false, is_writable: true },
                );
                lemma_program_block_push(args.inputs@.take(i as int), e);
                assert(args.inputs@.take(i as int).push(e) =~= args.inputs@.take(i as int + 1));
                assert((header + spec_program_block(args.inputs@.take(i as int))).push(
                    (e.account@, false, true),
                ) =~= header + spec_program_block(args.inputs@.take(i as int)).push(
                    (e.account@, false, true),
                ));
            }
            i = i + 1;
        }
        proof {
            assert(args.inputs@.take(n as int) =~= args.inputs@);
            assert(args.outputs@.take(0) =~= Seq::<AccountEntry>::empty());
            assert(spec_program_block(Seq::<AccountEntry>::empty()) =~= Seq::<
                (Seq<u8>, bool, bool),
            >::empty());
            assert(header + spec_program_block(args.inputs@) + spec_program_block(
                args.outputs@.take(0),
            ) =~= header + spec_program_block(args.inputs@));
        }
        let m = args.outputs.len();
        let mut j: usize = 0;
        while j < m
            invariant
                j <= m,
                m == args.outputs@.len(),
                metas_view(accounts@) == header + spec_program_block(args.inputs@)
                    + spec_program_block(args.outputs@.take(j as int)),
            decreases m - j,
        {
            let e = args.outputs[j];
            let ghost pre = accounts@;
            accounts.push(AccountMeta { pubkey: e.account, is_signer: false, is_writable: true });
            proof {
                lemma_metas_view_push(
                    pre,
                    AccountMeta { pubkey: e.account, is_signer: false, is_writable: true },
                );
                lemma_program_block_push(args.outputs@.take(j as int), e);
                assert(args.outputs@.take(j as int).push(e) =~= args.outputs@.take(j as int + 1));
                assert((header + spec_program_block(args.inputs@) + spec_program_block(
                    args.outputs@.take(j as int),
                )).push((e.account@, false, true)) =~= header + spec_program_block(args.inputs@)
                    + spec_program_block(args.outputs@.take(j as int)).push(
                    (e.account@, false, true),
                ));
            }
            j = j + 1;
        }
        let space = program_state_len(&args);
        let mut v: Vec<Instruction> = Vec::new();
        v.push(
            Instruction::CreateAccount {
                payer: *initializer,
                new_account: *transform,
                rent: tokenitis_rent,
                space,
                owner: *program_id,
            },
        );
        proof {
            assert(args.outputs@.take(m as int) =~= args.outputs@);
            assert(header =~= seq![
                (spec_token_program_id(), false, false),
                (transform@, false, true),
                (initializer@, true, false),
            ]);
            assert(metas_view(accounts@) == spec_initialize_accounts(
                initializer@,
                transform@,
                args.inputs@,
                args.outputs@,
            ));
        }
        v.push(
            Instruction::Transform {
                program_id: *program_id,
                accounts,
                payload: InstructionType::CreateTransform(args),
            },
        );
        Ok(v)
    }

    /// The single execution instruction: account list [token program,
    /// transform, program authority, caller], then the four blocks
    /// [caller inputs, program inputs, caller outputs, program outputs],
    /// each in the persisted state's own iteration order. Fails with a
    /// lookup failure on the first state asset the caller supplied no
    /// account for; no instruction is emitted with a partially resolved
    /// account list.
    pub fn execute_tokenitis(
        caller: &Address,
        transform: &Address,
        program_id: &Address,
        transform_state: &Tokenitis,
        args: ExecuteArgs,
    ) -> (r: Result<Vec<Instruction>, TokenitisError>)
        ensures
            spec_first_missing(transform_state.inputs@, args.user_inputs@) matches Some(a) ==> r
                == Err::<Vec<Instruction>, TokenitisError>(
                TokenitisError::LookupFailure { asset: a, phase: LookupPhase::CallerInput },
            ),
            spec_first_missing(transform_state.inputs@, args.user_inputs@) is None ==> (
            spec_first_missing(transform_state.outputs@, args.user_outputs@) matches Some(a) ==> r
                == Err::<Vec<Instruction>, TokenitisError>(
                TokenitisError::LookupFailure { asset: a, phase: LookupPhase::CallerOutput },
            )),
            spec_first_missing(transform_state.inputs@, args.user_inputs@) is None
                && spec_first_missing(transform_state.outputs@, args.user_outputs@) is None ==> (
            match spec_program_authority(program_id@) {
                Some(_) => r is Ok,
                None => r == Err::<Vec<Instruction>, TokenitisError>(TokenitisError::BuildFailure),
            }),
            r matches Ok(v) ==> {
                &&& spec_first_missing(transform_state.inputs@, args.user_inputs@) is None
                &&& spec_first_missing(transform_state.outputs@, args.user_outputs@) is None
                &&& v@.len() == 1
                &&& spec_program_authority(program_id@) matches Some(auth) && v@[0]@ == (
                InstrView::Transform {
                    program_id: program_id@,
                    accounts: spec_execute_accounts(
                        caller@,
                        transform@,
                        auth,
                        transform_state.inputs@,
                        transform_state.outputs@,
                        args.user_inputs@,
                        args.user_outputs@,
                    ),
                    payload: PayloadView::ExecuteTransform {
                        user_inputs: entries_view(args.user_inputs@),
                        user_outputs: entries_view(args.user_outputs@),
                    },
                })
            },
    {
        let mut caller_inputs: Vec<AccountMeta> = Vec::new();
        let mut program_inputs: Vec<AccountMeta> = Vec::new();
        proof {
            assert(transform_state.inputs@.take(0) =~= Seq::<AccountEntry>::empty());
            assert(metas_view(Seq::<AccountMeta>::empty()) =~= Seq::<(Seq<u8>, bool, bool)>::empty());
            assert(spec_caller_block(Seq::<AccountEntry>::empty(), args.user_inputs@) =~= Seq::<
                (Seq<u8>, bool, bool),
            >::empty());
            assert(spec_program_block(Seq::<AccountEntry>::empty()) =~= Seq::<
                (Seq<u8>, bool, bool),
            >::empty());
        }
        let n = transform_state.inputs.len();
        let mut i: usize = 0;
        while i < n
            invariant
                i <= n,
                n == transform_state.inputs@.len(),
                spec_first_missing(
                    transform_state.inputs@.take(i as int),
                    args.user_inputs@,
                ) is None,
                metas_view(caller_inputs@) == spec_caller_block(
                    transform_state.inputs@.take(i as int),
                    args.user_inputs@,
                ),
                metas_view(program_inputs@) == spec_program_block(
                    transform_state.inputs@.take(i as int),
                ),
            decreases n - i,
        {
            let e = transform_state.inputs[i];
            let user_account = match lookup_account(&args.user_inputs, &e.asset) {
                Some(a) => a,
                None => {
                    proof {
                        lemma_first_missing_found(
                            transform_state.inputs@,
                            args.user_inputs@,
                            i as int,
                        );
                    }
                    return Err(
                        TokenitisError::LookupFailure {
                            asset: e.asset,
                            phase: LookupPhase::CallerInput,
                        },
                    );
                },
            };
            let ghost pre_caller = caller_inputs@;
            let ghost pre_program = program_inputs@;
            caller_inputs.push(
                AccountMeta { pubkey: user_account, is_signer: false, is_writable: true },
            );
            program_inputs.push(
                AccountMeta { pubkey: e.account, is_signer: false, is_writable: true },
            );
            proof {
                lemma_metas_view_push(
                    pre_caller,
                    AccountMeta { pubkey: user_account, is_signer: false, is_writable: true },
                );
                lemma_metas_view_push(
                    pre_program,
                    AccountMeta { pubkey: e.account, is_signer: false, is_writable: true },
                );
                lemma_caller_block_push(
                    transform_state.inputs@.take(i as int),
                    args.user_inputs@,
                    e,
                );
                lemma_program_block_push(transform_state.inputs@.take(i as int), e);
                assert(transform_state.inputs@.take(i as int).push(e) =~= transform_state.inputs@
                    .take(i as int + 1));
                lemma_first_missing_extend(transform_state.inputs@, args.user_inputs@, i as int);
            }
            i = i + 1;
        }
        proof {
            assert(transform_state.inputs@.take(n as int) =~= transform_state.inputs@);
            assert(transform_state.outputs@.take(0) =~= Seq::<AccountEntry>::empty());
            assert(spec_caller_block(Seq::<AccountEntry>::empty(), args.user_outputs@) =~= Seq::<
                (Seq<u8>, bool, bool),
            >::empty());
            assert(spec_program_block(Seq::<AccountEntry>::empty()) =~= Seq::<
                (Seq<u8>, bool, bool),
            >::empty());
            assert(metas_view(Seq::<AccountMeta>::empty()) =~= Seq::<(Seq<u8>, bool, bool)>::empty());
        }
        let mut caller_outputs: Vec<AccountMeta> = Vec::new();
        let mut program_outputs: Vec<AccountMeta> = Vec::new();
        let m = transform_state.outputs.len();
        let mut j: usize = 0;
        while j < m
            invariant
                j <= m,
                m == transform_state.outputs@.len(),
                spec_first_missing(transform_state.inputs@, args.user_inputs@) is None,
                spec_first_missing(
                    transform_state.outputs@.take(j as int),
                    args.user_outputs@,
                ) is None,
                metas_view(caller_inputs@) == spec_caller_block(
                    transform_state.inputs@,
                    args.user_inputs@,
                ),
                metas_view(program_inputs@) == spec_program_block(transform_state.inputs@),
                metas_view(caller_outputs@) == spec_caller_block(
                    transform_state.outputs@.take(j as int),
                    args.user_outputs@,
                ),
                metas_view(program_outputs@) == spec_program_block(
                    transform_state.outputs@.take(j as int),
                ),
            decreases m - j,
        {
            let e = transform_state.outputs[j];
            let user_account = match lookup_account(&args.user_outputs, &e.asset) {
                Some(a) => a,
                None => {
                    proof {
                        lemma_first_missing_found(
                            transform_state.outputs@,
                            args.user_outputs@,
                            j as int,
                        );
                    }
                    return Err(
                        TokenitisError::LookupFailure {
                            asset: e.asset,
                            phase: LookupPhase::CallerOutput,
                        },
                    );
                },
            };
            let ghost pre_caller = caller_outputs@;
            let ghost pre_program = program_outputs@;
            caller_outputs.push(
                AccountMeta { pubkey: user_account, is_signer: false, is_writable: true },
            );
            program_outputs.push(
                AccountMeta { pubkey: e.account, is_signer: false, is_writable: true },
            );
            proof {
                lemma_metas_view_push(
                    pre_caller,
                    AccountMeta { pubkey: user_account, is_signer: false, is_writable: true },
                );
                lemma_metas_view_push(
                    pre_program,
                    AccountMeta { pubkey: e.account, is_signer: false, is_writable: true },
                );
                lemma_caller_block_push(
                    transform_state.outputs@.take(j as int),
                    args.user_outputs@,
                    e,
                );
                lemma_program_block_push(transform_state.outputs@.take(j as int), e);
                assert(transform_state.outputs@.take(j as int).push(e) =~= transform_state.outputs@
                    .take(j as int + 1));
                lemma_first_missing_extend(transform_state.outputs@, args.user_outputs@, j as int);
            }
            j = j + 1;
        }
        proof {
            assert(transform_state.outputs@.take(m as int) =~= transform_state.outputs@);
        }
        let pda = match program_authority(program_id) {
            Some(a) => a,
            None => {
                return Err(TokenitisError::BuildFailure);
            },
        };
        let mut accounts: Vec<AccountMeta> = Vec::new();
        accounts.push(
            AccountMeta { pubkey: token_program_address(), is_signer: false, is_writable: false },
        );
        accounts.push(AccountMeta { pubkey: *transform, is_signer: false, is_writable: false });
        accounts.push(AccountMeta { pubkey: pda, is_signer: false, is_writable: false });
        accounts.push(AccountMeta { pubkey: *caller, is_signer: true, is_writable: false });
        let ghost header = metas_view(accounts@);
        proof {
            assert(header =~= seq![
                (spec_token_program_id(), false, false),
                (transform@, false, false),
                (pda@, false, false),
                (caller@, true, false),
            ]);
        }
        let ghost a0 = accounts@;
        let ghost ci = caller_inputs@;
        accounts.append(&mut caller_inputs);
        let ghost a1 = accounts@;
        let ghost pi = program_inputs@;
        accounts.append(&mut program_inputs);
        let ghost a2 = accounts@;
        let ghost co = caller_outputs@;
        accounts.append(&mut caller_outputs);
        let ghost a3 = accounts@;
        let ghost po = program_outputs@;
        accounts.append(&mut program_outputs);
        proof {
            lemma_metas_view_concat(a0, ci);
            lemma_metas_view_concat(a1, pi);
            lemma_metas_view_concat(a2, co);
            lemma_metas_view_concat(a3, po);
            assert(metas_view(accounts@) =~= spec_execute_accounts(
                caller@,
                transform@,
                pda@,
                transform_state.inputs@,
                transform_state.outputs@,
                args.user_inputs@,
                args.user_outputs@,
            ));
        }
        let mut v: Vec<Instruction> = Vec::new();
        v.push(
            Instruction::Transform {
                program_id: *program_id,
                accounts,
                payload: InstructionType::ExecuteTransform(args),
            },
        );
        Ok(v)
    }

    /// The two instructions that create one mint of the asset primitive:
    /// allocate the mint account, then initialize it with `mint_authority`.
    pub fn create_spl_token_mint(
        mint: &Address,
        mint_authority: &Address,
        freeze_authority: Option<Address>,
        decimals: u8,
        spl_mint_rent: u64,
    ) -> (r: Result<Vec<Instruction>, TokenitisError>)
        ensures
            r matches Ok(v) && insts_view(v@) == spec_create_token_mint(
                mint@,
                mint_authority@,
                opt_addr_view(freeze_authority),
                decimals,
                spl_mint_rent,
            ),
    {
        let mut v: Vec<Instruction> = Vec::new();
        v.push(
            Instruction::CreateAccount {
                payer: *mint_authority,
                new_account: *mint,
                rent: spl_mint_rent,
                space: MINT_LEN,
                owner: token_program_address(),
            },
        );
        v.push(
            Instruction::InitializeMint {
                mint: *mint,
                authority: *mint_authority,
                freeze_authority,
                decimals,
            },
        );
        proof {
            assert(insts_view(v@) =~= spec_create_token_mint(
                mint@,
                mint_authority@,
                opt_addr_view(freeze_authority),
                decimals,
                spl_mint_rent,
            ));
        }
        Ok(v)
    }

    /// The two instructions that create one token account of the asset
    /// primitive: allocate it, then initialize it for `mint` under
    /// `authority`.
    pub fn create_spl_token_account(
        mint: &Address,
        token_account: &Address,
        authority: &Address,
        rent: u64,
    ) -> (r: Result<Vec<Instruction>, TokenitisError>)
        ensures
            r matches Ok(v) && insts_view(v@) == spec_create_token_account(
                mint@,
                token_account@,
                authority@,
                rent,
            ),
    {
        let mut v: Vec<Instruction> = Vec::new();
        v.push(
            Instruction::CreateAccount {
                payer: *authority,
                new_account: *token_account,
                rent,
                space: TOKEN_ACCOUNT_LEN,
                owner: token_program_address(),
            },
        );
        v.push(
            Instruction::InitializeAccount {
                account: *token_account,
                mint: *mint,
                authority: *authority,
            },
        );
        proof {
            assert(insts_view(v@) =~= spec_create_token_account(
                mint@,
                token_account@,
                authority@,
                rent,
            ));
        }
        Ok(v)
    }
}

} // verus!
