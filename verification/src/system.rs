//! Calls into the system program.

use crate::account::NoStdAccountInfo;
use crate::borrow::AccountError;
use crate::codec::put_bytes;
use crate::codec::u64_bytes;
use crate::codec::u64_to_le;
use crate::cpi::handed;
use crate::cpi::seeds_view;
use crate::cpi::Call;
use crate::cpi::Dispatched;
use crate::cpi::Dispatcher;
use crate::input::Input;
use crate::key::key_bytes;
use solana_pubkey::Pubkey;
use vstd::prelude::*;

verus! {

/// The bytes of the key of the system program: thirty-two of zero.
pub open spec fn id_bytes() -> Seq<u8> {
    Seq::new(32, |i: int| 0u8)
}

/// The key of the system program.
pub fn id() -> (id: Pubkey)
    ensures
        key_bytes(id) == id_bytes(),
{
    let bytes = [0u8; 32];
    assert(bytes@ =~= id_bytes());
    Pubkey::new_from_array(bytes)
}

/// The data of an instruction of the system program: its number in four
/// bytes, lowest first, then its arguments.
pub open spec fn instruction(number: u8, arguments: Seq<u8>) -> Seq<u8> {
    seq![number, 0u8, 0u8, 0u8] + arguments
}

/// Consumes a stored nonce and puts a successor in its place.
pub struct AdvanceNonceAccount<'a> {
    /// Nonce account.
    pub account: &'a NoStdAccountInfo,
    /// RecentBlockhashes sysvar.
    pub recent_blockhashes_sysvar: &'a NoStdAccountInfo,
    /// Nonce authority.
    pub authority: &'a NoStdAccountInfo,
}

impl<'a> AdvanceNonceAccount<'a> {
    /// Whether the accounts are of this input.
    pub open spec fn valid_in(&self, input: &Input) -> bool {
        &&& self.account.valid_in(input)
        &&& self.recent_blockhashes_sysvar.valid_in(input)
        &&& self.authority.valid_in(input)
    }

    /// The data of the instruction.
    pub open spec fn data(&self) -> Seq<u8> {
        instruction(4, Seq::empty())
    }

    /// What the host is handed: instruction 4 of the system program, without
    /// arguments; the authority signs.
    pub open spec fn dispatched(&self, s: Seq<u8>, signer_seeds: &[&[&[u8]]]) -> Dispatched {
        Dispatched {
            program_id: id_bytes(),
            accounts: seq![
                self.account.meta(s, false),
                self.recent_blockhashes_sysvar.meta(s, false),
                self.authority.meta(s, true),
            ],
            data: self.data(),
            infos: seq![
                self.account.info(s),
                self.recent_blockhashes_sysvar.info(s),
                self.authority.info(s),
            ],
            seeds: seeds_view(signer_seeds),
        }
    }

    /// Writes the data of the instruction.
    pub fn instruction_data(&self) -> (instruction_data: [u8; 4])
        ensures
            instruction_data@ == self.data(),
    {
        let mut instruction_data = [0; 4];
        instruction_data[0] = 4;
        assert(instruction_data@ =~= self.data());
        instruction_data
    }

    /// The call, all set but for the seeds.
    pub fn call(&self, input: &Input) -> (call: Call<3, 3, 4>)
        requires
            self.valid_in(input),
        ensures
            forall|signer_seeds: &[&[&[u8]]]|
                #[trigger] call.dispatched(signer_seeds) == self.dispatched(input@, signer_seeds),
    {
        let account_metas = [
            self.account.to_meta_c(input),
            self.recent_blockhashes_sysvar.to_meta_c(input),
            self.authority.to_meta_c_signer(input),
        ];
        let account_infos = [
            self.account.to_info_c(input),
            self.recent_blockhashes_sysvar.to_info_c(input),
            self.authority.to_info_c(input),
        ];
        let instruction_data = self.instruction_data();
        assert(account_metas@ =~= self.dispatched(input@, &[]).accounts);
        assert(account_infos@ =~= self.dispatched(input@, &[]).infos);

        Call { program_id: id(), account_metas, account_infos, instruction_data }
    }

    /// Makes the call, signing for the addresses that `signer_seeds` derive.
    pub fn invoke_signed<D: Dispatcher>(
        &self,
        input: &Input,
        dispatcher: &D,
        signer_seeds: &[&[&[u8]]],
    ) -> (r: Result<(), AccountError>)
        requires
            self.valid_in(input),
        ensures
            r is Ok,
            handed(dispatcher, self.dispatched(input@, signer_seeds)),
    {
        self.call(input).invoke_signed(dispatcher, signer_seeds)
    }
}

/// Gives an account its space.
pub struct Allocate<'a> {
    pub account: &'a NoStdAccountInfo,
    pub space: u64,
}

impl<'a> Allocate<'a> {
    /// Whether the account is of this input.
    pub open spec fn valid_in(&self, input: &Input) -> bool {
        self.account.valid_in(input)
    }

    /// The data of the instruction.
    pub open spec fn data(&self) -> Seq<u8> {
        instruction(8, u64_bytes(self.space))
    }

    /// What the host is handed: instruction 8 of the system program with the
    /// space; the account signs.
    pub open spec fn dispatched(&self, s: Seq<u8>, signer_seeds: &[&[&[u8]]]) -> Dispatched {
        Dispatched {
            program_id: id_bytes(),
            accounts: seq![self.account.meta(s, true)],
            data: self.data(),
            infos: seq![self.account.info(s)],
            seeds: seeds_view(signer_seeds),
        }
    }

    /// Writes the data of the instruction.
    pub fn instruction_data(&self) -> (instruction_data: [u8; 12])
        ensures
            instruction_data@ == self.data(),
    {
        let mut instruction_data = [0; 12];
        instruction_data[0] = 8;
        put_bytes(&mut instruction_data, 4, u64_to_le(self.space).as_slice());
        assert(instruction_data@ =~= self.data());
        instruction_data
    }

    /// The call, all set but for the seeds.
    pub fn call(&self, input: &Input) -> (call: Call<1, 1, 12>)
        requires
            self.valid_in(input),
        ensures
            forall|signer_seeds: &[&[&[u8]]]|
                #[trigger] call.dispatched(signer_seeds) == self.dispatched(input@, signer_seeds),
    {
        let account_metas = [self.account.to_meta_c_signer(input)];
        let account_infos = [self.account.to_info_c(input)];
        let instruction_data = self.instruction_data();
        assert(account_metas@ =~= self.dispatched(input@, &[]).accounts);
        assert(account_infos@ =~= self.dispatched(input@, &[]).infos);

        Call { program_id: id(), account_metas, account_infos, instruction_data }
    }

    /// Makes the call, signing for the addresses that `signer_seeds` derive.
    pub fn invoke_signed<D: Dispatcher>(
        &self,
        input: &Input,
        dispatcher: &D,
        signer_seeds: &[&[&[u8]]],
    ) -> (r: Result<(), AccountError>)
        requires
            self.valid_in(input),
        ensures
            r is Ok,
            handed(dispatcher, self.dispatched(input@, signer_seeds)),
    {
        self.call(input).invoke_signed(dispatcher, signer_seeds)
    }
}

/// Gives an account to a program.
pub struct Assign<'a> {
    pub account: &'a NoStdAccountInfo,
    pub owner: &'a Pubkey,
}

impl<'a> Assign<'a> {
    /// Whether the account is of this input.
    pub open spec fn valid_in(&self, input: &Input) -> bool {
        self.account.valid_in(input)
    }

    /// The data of the instruction.
    pub open spec fn data(&self) -> Seq<u8> {
        instruction(1, key_bytes(*self.owner))
    }

    /// What the host is handed: instruction 1 of the system program with the
    /// new owner; the account signs.
    pub open spec fn dispatched(&self, s: Seq<u8>, signer_seeds: &[&[&[u8]]]) -> Dispatched {
        Dispatched {
            program_id: id_bytes(),
            accounts: seq![self.account.meta(s, true)],
            data: self.data(),
            infos: seq![self.account.info(s)],
            seeds: seeds_view(signer_seeds),
        }
    }

    /// Writes the data of the instruction.
    pub fn instruction_data(&self) -> (instruction_data: [u8; 36])
        ensures
            instruction_data@ == self.data(),
    {
        let mut instruction_data = [0; 36];
        instruction_data[0] = 1;
        put_bytes(&mut instruction_data, 4, self.owner.to_bytes().as_slice());
        assert(instruction_data@ =~= self.data());
        instruction_data
    }

    /// The call, all set but for the seeds.
    pub fn call(&self, input: &Input) -> (call: Call<1, 1, 36>)
        requires
            self.valid_in(input),
        ensures
            forall|signer_seeds: &[&[&[u8]]]|
                #[trigger] call.dispatched(signer_seeds) == self.dispatched(input@, signer_seeds),
    {
        let account_metas = [self.account.to_meta_c_signer(input)];
        let account_infos = [self.account.to_info_c(input)];
        let instruction_data = self.instruction_data();
        assert(account_metas@ =~= self.dispatched(input@, &[]).accounts);
        assert(account_infos@ =~= self.dispatched(input@, &[]).infos);

        Call { program_id: id(), account_metas, account_infos, instruction_data }
    }

    /// Makes the call, signing for the addresses that `signer_seeds` derive.
    pub fn invoke_signed<D: Dispatcher>(
        &self,
        input: &Input,
        dispatcher: &D,
        signer_seeds: &[&[&[u8]]],
    ) -> (r: Result<(), AccountError>)
        requires
            self.valid_in(input),
        ensures
            r is Ok,
            handed(dispatcher, self.dispatched(input@, signer_seeds)),
    {
        self.call(input).invoke_signed(dispatcher, signer_seeds)
    }
}

/// Creates an account, with its balance, its space and its owner.
pub struct CreateAccount<'a> {
    pub from: &'a NoStdAccountInfo,
    pub to: &'a NoStdAccountInfo,
    pub lamports: u64,
    pub space: u64,
    pub owner: &'a Pubkey,
}

impl<'a> CreateAccount<'a> {
    /// Whether the accounts are of this input.
    pub open spec fn valid_in(&self, input: &Input) -> bool {
        self.from.valid_in(input) && self.to.valid_in(input)
    }

    /// The data of the instruction.
    pub open spec fn data(&self) -> Seq<u8> {
        instruction(
        0,
        u64_bytes(self.lamports) + u64_bytes(self.space) + key_bytes(*self.owner),
        )
    }

    /// What the host is handed: instruction 0 of the system program with the
    /// lamports, the space and the owner; both accounts sign.
    pub open spec fn dispatched(&self, s: Seq<u8>, signer_seeds: &[&[&[u8]]]) -> Dispatched {
        Dispatched {
            program_id: id_bytes(),
            accounts: seq![self.from.meta(s, true), self.to.meta(s, true)],
            data: self.data(),
            infos: seq![self.from.info(s), self.to.info(s)],
            seeds: seeds_view(signer_seeds),
        }
    }

    /// Writes the data of the instruction.
    pub fn instruction_data(&self) -> (instruction_data: [u8; 52])
        ensures
            instruction_data@ == self.data(),
    {
        let mut instruction_data = [0; 52];
        // create account instruction has a '0' discriminator
        put_bytes(&mut instruction_data, 4, u64_to_le(self.lamports).as_slice());
        put_bytes(&mut instruction_data, 12, u64_to_le(self.space).as_slice());
        put_bytes(&mut instruction_data, 20, self.owner.to_bytes().as_slice());
        assert(instruction_data@ =~= self.data());
        instruction_data
    }

    /// The call, all set but for the seeds.
    pub fn call(&self, input: &Input) -> (call: Call<2, 2, 52>)
        requires
            self.valid_in(input),
        ensures
            forall|signer_seeds: &[&[&[u8]]]|
                #[trigger] call.dispatched(signer_seeds) == self.dispatched(input@, signer_seeds),
    {
        let account_metas = [self.from.to_meta_c_signer(input), self.to.to_meta_c_signer(input)];
        let account_infos = [self.from.to_info_c(input), self.to.to_info_c(input)];
        let instruction_data = self.instruction_data();
        assert(account_metas@ =~= self.dispatched(input@, &[]).accounts);
        assert(account_infos@ =~= self.dispatched(input@, &[]).infos);

        Call { program_id: id(), account_metas, account_infos, instruction_data }
    }

    /// Makes the call, signing for the addresses that `signer_seeds` derive.
    pub fn invoke_signed<D: Dispatcher>(
        &self,
        input: &Input,
        dispatcher: &D,
        signer_seeds: &[&[&[u8]]],
    ) -> (r: Result<(), AccountError>)
        requires
            self.valid_in(input),
        ensures
            r is Ok,
            handed(dispatcher, self.dispatched(input@, signer_seeds)),
    {
        self.call(input).invoke_signed(dispatcher, signer_seeds)
    }
}

/// Moves lamports from one account to another.
pub struct Transfer<'a> {
    pub from: &'a NoStdAccountInfo,
    pub to: &'a NoStdAccountInfo,
    pub lamports: u64,
}

impl<'a> Transfer<'a> {
    /// Whether the accounts are of this input.
    pub open spec fn valid_in(&self, input: &Input) -> bool {
        self.from.valid_in(input) && self.to.valid_in(input)
    }

    /// The data of the instruction.
    pub open spec fn data(&self) -> Seq<u8> {
        instruction(2, u64_bytes(self.lamports))
    }

    /// What the host is handed: instruction 2 of the system program with the
    /// lamports; `from` signs.
    pub open spec fn dispatched(&self, s: Seq<u8>, signer_seeds: &[&[&[u8]]]) -> Dispatched {
        Dispatched {
            program_id: id_bytes(),
            accounts: seq![self.from.meta(s, true), self.to.meta(s, false)],
            data: self.data(),
            infos: seq![self.from.info(s), self.to.info(s)],
            seeds: seeds_view(signer_seeds),
        }
    }

    /// Writes the data of the instruction.
    pub fn instruction_data(&self) -> (instruction_data: [u8; 12])
        ensures
            instruction_data@ == self.data(),
    {
        let mut instruction_data = [0; 12];
        instruction_data[0] = 2;
        put_bytes(&mut instruction_data, 4, u64_to_le(self.lamports).as_slice());
        assert(instruction_data@ =~= self.data());
        instruction_data
    }

    /// The call, all set but for the seeds.
    pub fn call(&self, input: &Input) -> (call: Call<2, 2, 12>)
        requires
            self.valid_in(input),
        ensures
            forall|signer_seeds: &[&[&[u8]]]|
                #[trigger] call.dispatched(signer_seeds) == self.dispatched(input@, signer_seeds),
    {
        let account_metas = [self.from.to_meta_c_signer(input), self.to.to_meta_c(input)];
        let account_infos = [self.from.to_info_c(input), self.to.to_info_c(input)];
        let instruction_data = self.instruction_data();
        assert(account_metas@ =~= self.dispatched(input@, &[]).accounts);
        assert(account_infos@ =~= self.dispatched(input@, &[]).infos);

        Call { program_id: id(), account_metas, account_infos, instruction_data }
    }

    /// Makes the call, signing for the addresses that `signer_seeds` derive.
    pub fn invoke_signed<D: Dispatcher>(
        &self,
        input: &Input,
        dispatcher: &D,
        signer_seeds: &[&[&[u8]]],
    ) -> (r: Result<(), AccountError>)
        requires
            self.valid_in(input),
        ensures
            r is Ok,
            handed(dispatcher, self.dispatched(input@, signer_seeds)),
    {
        self.call(input).invoke_signed(dispatcher, signer_seeds)
    }
}

} // verus!
