//! Outbound calls to the token-custody program.
use crate::bytes::{le_bytes, lemma_le_bytes_len, push_u64_le};
use solana_program::program_error::ProgramError;
use solana_program::pubkey::Pubkey;
use vstd::prelude::*;

verus! {

#[verifier::external_type_specification]
#[verifier::external_body]
pub struct ExPubkey(Pubkey);

/// An account named by an outbound call, with its permissions.
#[derive(Clone, Copy, Debug, PartialEq, Eq)]
pub struct AccountMeta {
    pub pubkey: Pubkey,
    pub is_signer: bool,
    pub is_writable: bool,
}

impl AccountMeta {
    /// A writable account.
    pub fn new(pubkey: Pubkey, is_signer: bool) -> (r: AccountMeta)
        ensures
            r == (AccountMeta { pubkey, is_signer, is_writable: true }),
    {
        AccountMeta { pubkey, is_signer, is_writable: true }
    }

    /// A read-only account.
    pub fn new_readonly(pubkey: Pubkey, is_signer: bool) -> (r: AccountMeta)
        ensures
            r == (AccountMeta { pubkey, is_signer, is_writable: false }),
    {
        AccountMeta { pubkey, is_signer, is_writable: false }
    }
}

/// An outbound call: the program to invoke, the accounts it is handed in
/// order, and the payload.
#[derive(Debug, PartialEq, Eq)]
pub struct Instruction {
    pub program_id: Pubkey,
    pub accounts: Vec<AccountMeta>,
    pub data: Vec<u8>,
}

/// The token program's code for initialising an account.
pub const INITIALIZE_ACCOUNT_CODE: u8 = 1;

/// The token program's code for a transfer.
pub const TRANSFER_CODE: u8 = 3;

/// The payload of a transfer: its code, then the amount in eight
/// little-endian bytes.
pub open spec fn transfer_data(amount: u64) -> Seq<u8> {
    seq![TRANSFER_CODE] + le_bytes(amount as nat, 8)
}

/// Builds calls into the token-custody program.
pub struct ISPLT {}

impl ISPLT {
    /// The call that initialises `target_acc` as a token account of
    /// `mint_acc` owned by `owner`. Only the target is writable; no account
    /// signs.
    pub fn initialize_account(
        target_acc: Pubkey,
        mint_acc: Pubkey,
        owner: Pubkey,
        sysvar_rent_acc: Pubkey,
        program_id: Pubkey,
    ) -> (r: Result<Instruction, ProgramError>)
        ensures
            r is Ok,
            r->Ok_0.program_id == program_id,
            r->Ok_0.data@ == seq![INITIALIZE_ACCOUNT_CODE],
            r->Ok_0.accounts@ == seq![
                AccountMeta { pubkey: target_acc, is_signer: false, is_writable: true },
                AccountMeta { pubkey: mint_acc, is_signer: false, is_writable: false },
                AccountMeta { pubkey: owner, is_signer: false, is_writable: false },
                AccountMeta { pubkey: sysvar_rent_acc, is_signer: false, is_writable: false },
            ],
    {
        let mut data: Vec<u8> = Vec::new();
        data.push(INITIALIZE_ACCOUNT_CODE);
        let mut accounts: Vec<AccountMeta> = Vec::new();
        accounts.push(AccountMeta::new(target_acc, false));
        accounts.push(AccountMeta::new_readonly(mint_acc, false));
        accounts.push(AccountMeta::new_readonly(owner, false));
        accounts.push(AccountMeta::new_readonly(sysvar_rent_acc, false));
        proof {
            assert(data@ =~= seq![INITIALIZE_ACCOUNT_CODE]);
            assert(accounts@ =~= seq![
                AccountMeta { pubkey: target_acc, is_signer: false, is_writable: true },
                AccountMeta { pubkey: mint_acc, is_signer: false, is_writable: false },
                AccountMeta { pubkey: owner, is_signer: false, is_writable: false },
                AccountMeta { pubkey: sysvar_rent_acc, is_signer: false, is_writable: false },
            ]);
        }
        Ok(Instruction { program_id, accounts, data })
    }

    /// The call that moves `amount` tokens from `src_acc` to `dst_acc`,
    /// signed by `owner`, the source's authority.
    pub fn transfer(
        amount: u64,
        src_acc: Pubkey,
        dst_acc: Pubkey,
        owner: Pubkey,
        program_id: Pubkey,
    ) -> (r: Result<Instruction, ProgramError>)
        ensures
            r is Ok,
            r->Ok_0.program_id == program_id,
            r->Ok_0.data@ == transfer_data(amount),
            r->Ok_0.data@.len() == 9,
            r->Ok_0.accounts@ == seq![
                AccountMeta { pubkey: src_acc, is_signer: false, is_writable: true },
                AccountMeta { pubkey: dst_acc, is_signer: false, is_writable: true },
                AccountMeta { pubkey: owner, is_signer: true, is_writable: false },
            ],
    {
        let mut data: Vec<u8> = Vec::new();
        data.push(TRANSFER_CODE);
        push_u64_le(&mut data, amount);
        let mut accounts: Vec<AccountMeta> = Vec::new();
        accounts.push(AccountMeta::new(src_acc, false));
        accounts.push(AccountMeta::new(dst_acc, false));
        accounts.push(AccountMeta::new_readonly(owner, true));
        proof {
            lemma_le_bytes_len(amount as nat, 8);
            assert(data@ =~= transfer_data(amount));
            assert(accounts@ =~= seq![
                AccountMeta { pubkey: src_acc, is_signer: false, is_writable: true },
                AccountMeta { pubkey: dst_acc, is_signer: false, is_writable: true },
                AccountMeta { pubkey: owner, is_signer: true, is_writable: false },
            ]);
        }
        Ok(Instruction { program_id, accounts, data })
    }
}

} // verus!
