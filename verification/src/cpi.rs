//! What a call into another program is made of: the descriptors of the
//! accounts and of the instruction, in the shape the host asks for, and the
//! call itself.
//!
//! A descriptor owns nothing. Where the host wants the address of something
//! that lies in the input buffer, the descriptor holds the place of it,
//! counted from the start of the buffer.

use crate::borrow::AccountError;
use crate::key::key_bytes;
use solana_pubkey::Pubkey;
use vstd::prelude::*;

verus! {

/// An account as an instruction names it.
#[derive(Clone, Copy, Debug, PartialEq, Eq, Structural)]
pub struct AccountMetaC {
    /// Where the key of the account stands.
    pub pubkey: usize,
    /// Is the account writable?
    pub is_writable: bool,
    /// Was the transaction signed by the key of this account?
    pub is_signer: bool,
}

impl AccountMetaC {
    /// An account that is only read and has not signed. For one that has
    /// signed use `readonly_signer`.
    #[inline(always)]
    pub fn readonly(pubkey: usize) -> (meta: AccountMetaC)
        ensures
            meta == (AccountMetaC { pubkey, is_writable: false, is_signer: false }),
    {
        AccountMetaC { pubkey, is_writable: false, is_signer: false }
    }

    /// An account that is written to and has not signed. For one that has
    /// signed use `writable_signer`.
    #[inline(always)]
    pub fn writable(pubkey: usize) -> (meta: AccountMetaC)
        ensures
            meta == (AccountMetaC { pubkey, is_writable: true, is_signer: false }),
    {
        AccountMetaC { pubkey, is_writable: true, is_signer: false }
    }

    /// An account that is only read and has signed.
    #[inline(always)]
    pub fn readonly_signer(pubkey: usize) -> (meta: AccountMetaC)
        ensures
            meta == (AccountMetaC { pubkey, is_writable: false, is_signer: true }),
    {
        AccountMetaC { pubkey, is_writable: false, is_signer: true }
    }

    /// An account that is written to and has signed.
    #[inline(always)]
    pub fn writable_signer(pubkey: usize) -> (meta: AccountMetaC)
        ensures
            meta == (AccountMetaC { pubkey, is_writable: true, is_signer: true }),
    {
        AccountMetaC { pubkey, is_writable: true, is_signer: true }
    }
}

/// An account as the host takes it in a call into another program.
#[derive(Clone, Copy, Debug, PartialEq, Eq, Structural)]
pub struct AccountInfoC {
    /// Where the key of the account stands.
    pub key: usize,
    /// Where the balance of the account stands.
    pub lamports: usize,
    /// Length of the data in bytes.
    pub data_len: u64,
    /// Where the data of the account starts.
    pub data: usize,
    /// Where the owner of the account stands.
    pub owner: usize,
    /// The epoch at which this account will next owe rent.
    pub rent_epoch: u64,
    /// Was the transaction signed by the key of this account?
    pub is_signer: bool,
    /// Is the account writable?
    pub is_writable: bool,
    /// Is the data of this account a loaded program?
    pub executable: bool,
}

impl AccountInfoC {
    /// The account as an instruction names it.
    #[inline(always)]
    pub fn to_meta_c(&self) -> (meta: AccountMetaC)
        ensures
            meta == (AccountMetaC {
                pubkey: self.key,
                is_writable: self.is_writable,
                is_signer: self.is_signer,
            }),
    {
        AccountMetaC { pubkey: self.key, is_writable: self.is_writable, is_signer: self.is_signer }
    }

    /// The account as an instruction names it, as a signer. For an address
    /// that the program derives: it did not sign the transaction, but the
    /// program signs for it in the call.
    #[inline(always)]
    pub fn to_meta_c_signer(&self) -> (meta: AccountMetaC)
        ensures
            meta == (AccountMetaC {
                pubkey: self.key,
                is_writable: self.is_writable,
                is_signer: true,
            }),
    {
        AccountMetaC { pubkey: self.key, is_writable: self.is_writable, is_signer: true }
    }
}

/// An instruction as the host takes it in a call into another program.
#[derive(Clone, Copy, Debug)]
pub struct InstructionC<'a> {
    /// The key of the program that is called.
    pub program_id: &'a Pubkey,
    /// The accounts that the instruction names.
    pub accounts: &'a [AccountMetaC],
    /// The data of the instruction.
    pub data: &'a [u8],
}

/// What the host is handed in one call.
pub ghost struct Dispatched {
    /// The bytes of the key of the program that is called.
    pub program_id: Seq<u8>,
    /// The accounts that the instruction names.
    pub accounts: Seq<AccountMetaC>,
    /// The data of the instruction.
    pub data: Seq<u8>,
    /// The accounts that the host is handed.
    pub infos: Seq<AccountInfoC>,
    /// The seeds of the addresses that the program signs for.
    pub seeds: Seq<Seq<Seq<u8>>>,
}

/// The seeds as sequences of bytes.
pub open spec fn seeds_view(seeds: &[&[&[u8]]]) -> Seq<Seq<Seq<u8>>> {
    Seq::new(seeds@.len(), |i: int| Seq::new(seeds@[i]@.len(), |j: int| seeds@[i]@[j]@))
}

/// What the host is handed where these are dispatched.
pub open spec fn dispatched(
    instruction: &InstructionC,
    infos: &[AccountInfoC],
    seeds: &[&[&[u8]]],
) -> Dispatched {
    Dispatched {
        program_id: key_bytes(*instruction.program_id),
        accounts: instruction.accounts@,
        data: instruction.data@,
        infos: infos@,
        seeds: seeds_view(seeds),
    }
}

/// How a call into another program reaches the host.
pub trait Dispatcher {
    /// Hands the call to the host. Nothing comes back: where the call fails,
    /// the host ends the whole invocation.
    fn dispatch(&self, instruction: &InstructionC, infos: &[AccountInfoC], seeds: &[&[&[u8]]]);
}

/// The dispatcher to use where there is no host: the call is left out.
#[derive(Clone, Copy, Debug, Default)]
pub struct NoopDispatcher;

impl Dispatcher for NoopDispatcher {
    fn dispatch(&self, instruction: &InstructionC, infos: &[AccountInfoC], seeds: &[&[&[u8]]]) {
    }
}

/// Whether the dispatcher has been handed a call of this content.
pub open spec fn handed<D: Dispatcher>(dispatcher: &D, call: Dispatched) -> bool {
    exists|instruction: InstructionC, infos: &[AccountInfoC], seeds: &[&[&[u8]]]|
        #![trigger call_ensures(D::dispatch, (dispatcher, &instruction, infos, seeds), ())]
        dispatched(&instruction, infos, seeds) == call && call_ensures(
            D::dispatch,
            (dispatcher, &instruction, infos, seeds),
            (),
        )
}

/// Calls another program, signing for the addresses that `seeds` derive.
/// Always reports success: a call that fails does not return.
pub fn invoke_signed<D: Dispatcher>(
    dispatcher: &D,
    instruction: &InstructionC,
    infos: &[AccountInfoC],
    seeds: &[&[&[u8]]],
) -> (r: Result<(), AccountError>)
    ensures
        r is Ok,
        handed(dispatcher, dispatched(instruction, infos, seeds)),
{
    dispatcher.dispatch(instruction, infos, seeds);
    Ok(())
}

/// A call into another program with all that it is made of: the program,
/// the accounts as the instruction names them, the accounts as the host
/// takes them, and the data of the instruction.
#[derive(Clone, Copy, Debug)]
pub struct Call<const METAS: usize, const INFOS: usize, const DATA: usize> {
    /// The key of the program that is called.
    pub program_id: Pubkey,
    /// The accounts that the instruction names.
    pub account_metas: [AccountMetaC; METAS],
    /// The accounts that the host is handed.
    pub account_infos: [AccountInfoC; INFOS],
    /// The data of the instruction.
    pub instruction_data: [u8; DATA],
}

impl<const METAS: usize, const INFOS: usize, const DATA: usize> Call<METAS, INFOS, DATA> {
    /// What the host is handed where the call is made with these seeds.
    pub open spec fn dispatched(&self, signer_seeds: &[&[&[u8]]]) -> Dispatched {
        Dispatched {
            program_id: key_bytes(self.program_id),
            accounts: self.account_metas@,
            data: self.instruction_data@,
            infos: self.account_infos@,
            seeds: seeds_view(signer_seeds),
        }
    }

    /// Makes the call, signing for the addresses that `signer_seeds`
    /// derive. Always reports success: a call that fails does not return.
    pub fn invoke_signed<D: Dispatcher>(&self, dispatcher: &D, signer_seeds: &[&[&[u8]]]) -> (r:
        Result<(), AccountError>)
        ensures
            r is Ok,
            handed(dispatcher, self.dispatched(signer_seeds)),
    {
        let instruction = InstructionC {
            program_id: &self.program_id,
            accounts: self.account_metas.as_slice(),
            data: self.instruction_data.as_slice(),
        };
        invoke_signed(dispatcher, &instruction, self.account_infos.as_slice(), signer_seeds)
    }
}

} // verus!
