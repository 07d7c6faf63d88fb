//! Calls into the token program. The program that is called is the one
//! whose account the caller names.

use crate::account::NoStdAccountInfo;
use crate::borrow::AccountError;
use crate::codec::put_bytes;
use crate::codec::u64_bytes;
use crate::codec::u64_to_le;
use crate::cpi::handed;
use crate::cpi::seeds_view;
use crate::cpi::Call;
use crate::cpi::Dispatched;
use crate::cpi::Dispatcher;
use crate::input::Input;
use crate::key::key_bytes;
use crate::layout::KEY_AT;
use crate::layout::KEY_LEN;
use solana_pubkey::Pubkey;
use vstd::prelude::*;

verus! {

/// The bytes of the key of the account: the program that is called.
pub open spec fn program_bytes(program: &NoStdAccountInfo, s: Seq<u8>) -> Seq<u8> {
    s.subrange(program.header() + KEY_AT, program.header() + KEY_AT + KEY_LEN)
}

/// Closes a token account and moves what it holds to the destination.
pub struct CloseAccount<'a> {
    pub token_program: &'a NoStdAccountInfo,
    pub account: &'a NoStdAccountInfo,
    pub destination: &'a NoStdAccountInfo,
    pub authority: &'a NoStdAccountInfo,
}

impl<'a> CloseAccount<'a> {
    /// Whether the accounts are of this input.
    pub open spec fn valid_in(&self, input: &Input) -> bool {
        &&& self.token_program.valid_in(input)
        &&& self.account.valid_in(input)
        &&& self.destination.valid_in(input)
        &&& self.authority.valid_in(input)
    }

    /// The data of the instruction.
    pub open spec fn data(&self) -> Seq<u8> {
        seq![9u8]
    }

    /// What the host is handed: instruction 9, without arguments; the
    /// authority signs.
    pub open spec fn dispatched(&self, s: Seq<u8>, signer_seeds: &[&[&[u8]]]) -> Dispatched {
        Dispatched {
            program_id: program_bytes(self.token_program, s),
            accounts: seq![
                self.account.meta(s, false),
                self.destination.meta(s, false),
                self.authority.meta(s, true),
            ],
            data: self.data(),
            infos: seq![self.account.info(s), self.destination.info(s), self.authority.info(s)],
            seeds: seeds_view(signer_seeds),
        }
    }

    /// Writes the data of the instruction.
    pub fn instruction_data(&self) -> (instruction_data: [u8; 1])
        ensures
            instruction_data@ == self.data(),
    {
        let instruction_data = [9];
        assert(instruction_data@ =~= self.data());
        instruction_data
    }

    /// The call, all set but for the seeds.
    pub fn call(&self, input: &Input) -> (call: Call<3, 3, 1>)
        requires
            self.valid_in(input),
        ensures
            forall|signer_seeds: &[&[&[u8]]]|
                #[trigger] call.dispatched(signer_seeds) == self.dispatched(input@, signer_seeds),
    {
        let account_metas = [
            self.account.to_meta_c(input),
            self.destination.to_meta_c(input),
            self.authority.to_meta_c_signer(input),
        ];
        let account_infos = [
            self.account.to_info_c(input),
            self.destination.to_info_c(input),
            self.authority.to_info_c(input),
        ];
        let instruction_data = self.instruction_data();
        assert(account_metas@ =~= self.dispatched(input@, &[]).accounts);
        assert(account_infos@ =~= self.dispatched(input@, &[]).infos);

        Call { program_id: self.token_program.key(input), account_metas, account_infos, instruction_data }
    }

    /// Makes the call, signing for the addresses that `signer_seeds` derive.
    pub fn invoke_signed<D: Dispatcher>(
        &self,
        input: &Input,
        dispatcher: &D,
        signer_seeds: &[&[&[u8]]],
    ) -> (r: Result<(), AccountError>)
        requires
            self.valid_in(input),
        ensures
            r is Ok,
            handed(dispatcher, self.dispatched(input@, signer_seeds)),
    {
        self.call(input).invoke_signed(dispatcher, signer_seeds)
    }
}

/// Makes a token account ready for a mint and an owner.
pub struct InitializeAccount3<'a> {
    pub token_program: &'a NoStdAccountInfo,
    pub token: &'a NoStdAccountInfo,
    pub mint: &'a NoStdAccountInfo,
    pub owner: &'a Pubkey,
}

impl<'a> InitializeAccount3<'a> {
    /// Whether the accounts are of this input.
    pub open spec fn valid_in(&self, input: &Input) -> bool {
        &&& self.token_program.valid_in(input)
        &&& self.token.valid_in(input)
        &&& self.mint.valid_in(input)
    }

    /// The data of the instruction.
    pub open spec fn data(&self) -> Seq<u8> {
        seq![18u8] + key_bytes(*self.owner)
    }

    /// What the host is handed: instruction 18 with the owner; nobody signs.
    pub open spec fn dispatched(&self, s: Seq<u8>, signer_seeds: &[&[&[u8]]]) -> Dispatched {
        Dispatched {
            program_id: program_bytes(self.token_program, s),
            accounts: seq![self.token.meta(s, false), self.mint.meta(s, false)],
            data: self.data(),
            infos: seq![self.token.info(s), self.mint.info(s)],
            seeds: seeds_view(signer_seeds),
        }
    }

    /// Writes the data of the instruction.
    pub fn instruction_data(&self) -> (instruction_data: [u8; 33])
        ensures
            instruction_data@ == self.data(),
    {
        // 1 (discriminator) + 32 (pubkey)
        let mut instruction_data = [0; 33];
        instruction_data[0] = 18;
        put_bytes(&mut instruction_data, 1, self.owner.to_bytes().as_slice());
        assert(instruction_data@ =~= self.data());
        instruction_data
    }

    /// The call, all set but for the seeds.
    pub fn call(&self, input: &Input) -> (call: Call<2, 2, 33>)
        requires
            self.valid_in(input),
        ensures
            forall|signer_seeds: &[&[&[u8]]]|
                #[trigger] call.dispatched(signer_seeds) == self.dispatched(input@, signer_seeds),
    {
        let account_metas = [self.token.to_meta_c(input), self.mint.to_meta_c(input)];
        let account_infos = [self.token.to_info_c(input), self.mint.to_info_c(input)];
        let instruction_data = self.instruction_data();
        assert(account_metas@ =~= self.dispatched(input@, &[]).accounts);
        assert(account_infos@ =~= self.dispatched(input@, &[]).infos);

        Call { program_id: self.token_program.key(input), account_metas, account_infos, instruction_data }
    }

    /// Makes the call, signing for the addresses that `signer_seeds` derive.
    pub fn invoke_signed<D: Dispatcher>(
        &self,
        input: &Input,
        dispatcher: &D,
        signer_seeds: &[&[&[u8]]],
    ) -> (r: Result<(), AccountError>)
        requires
            self.valid_in(input),
        ensures
            r is Ok,
            handed(dispatcher, self.dispatched(input@, signer_seeds)),
    {
        self.call(input).invoke_signed(dispatcher, signer_seeds)
    }
}

/// Brings the amount of a token account of wrapped lamports in line with
/// its balance.
pub struct SyncNative<'a> {
    pub token_program: &'a NoStdAccountInfo,
    pub token: &'a NoStdAccountInfo,
}

impl<'a> SyncNative<'a> {
    /// Whether the accounts are of this input.
    pub open spec fn valid_in(&self, input: &Input) -> bool {
        self.token_program.valid_in(input) && self.token.valid_in(input)
    }

    /// The data of the instruction.
    pub open spec fn data(&self) -> Seq<u8> {
        seq![17u8]
    }

    /// What the host is handed: instruction 17, without arguments; nobody
    /// signs.
    pub open spec fn dispatched(&self, s: Seq<u8>, signer_seeds: &[&[&[u8]]]) -> Dispatched {
        Dispatched {
            program_id: program_bytes(self.token_program, s),
            accounts: seq![self.token.meta(s, false)],
            data: self.data(),
            infos: seq![self.token.info(s)],
            seeds: seeds_view(signer_seeds),
        }
    }

    /// Writes the data of the instruction.
    pub fn instruction_data(&self) -> (instruction_data: [u8; 1])
        ensures
            instruction_data@ == self.data(),
    {
        let instruction_data = [17];
        assert(instruction_data@ =~= self.data());
        instruction_data
    }

    /// The call, all set but for the seeds.
    pub fn call(&self, input: &Input) -> (call: Call<1, 1, 1>)
        requires
            self.valid_in(input),
        ensures
            forall|signer_seeds: &[&[&[u8]]]|
                #[trigger] call.dispatched(signer_seeds) == self.dispatched(input@, signer_seeds),
    {
        let account_metas = [self.token.to_meta_c(input)];
        let account_infos = [self.token.to_info_c(input)];
        let instruction_data = self.instruction_data();
        assert(account_metas@ =~= self.dispatched(input@, &[]).accounts);
        assert(account_infos@ =~= self.dispatched(input@, &[]).infos);

        Call { program_id: self.token_program.key(input), account_metas, account_infos, instruction_data }
    }

    /// Makes the call, signing for the addresses that `signer_seeds` derive.
    pub fn invoke_signed<D: Dispatcher>(
        &self,
        input: &Input,
        dispatcher: &D,
        signer_seeds: &[&[&[u8]]],
    ) -> (r: Result<(), AccountError>)
        requires
            self.valid_in(input),
        ensures
            r is Ok,
            handed(dispatcher, self.dispatched(input@, signer_seeds)),
    {
        self.call(input).invoke_signed(dispatcher, signer_seeds)
    }
}

/// Moves tokens from one account to another.
pub struct Transfer<'a> {
    pub token_program: &'a NoStdAccountInfo,
    pub from: &'a NoStdAccountInfo,
    pub to: &'a NoStdAccountInfo,
    pub authority: &'a NoStdAccountInfo,
    pub amount: u64,
}

impl<'a> Transfer<'a> {
    /// Whether the accounts are of this input.
    pub open spec fn valid_in(&self, input: &Input) -> bool {
        &&& self.token_program.valid_in(input)
        &&& self.from.valid_in(input)
        &&& self.to.valid_in(input)
        &&& self.authority.valid_in(input)
    }

    /// The data of the instruction.
    pub open spec fn data(&self) -> Seq<u8> {
        seq![3u8] + u64_bytes(self.amount)
    }

    /// What the host is handed: instruction 3 with the amount; the authority
    /// signs. The account of the token program is handed over too.
    pub open spec fn dispatched(&self, s: Seq<u8>, signer_seeds: &[&[&[u8]]]) -> Dispatched {
        Dispatched {
            program_id: program_bytes(self.token_program, s),
            accounts: seq![
                self.from.meta(s, false),
                self.to.meta(s, false),
                self.authority.meta(s, true),
            ],
            data: self.data(),
            infos: seq![
                self.from.info(s),
                self.to.info(s),
                self.authority.info(s),
                self.token_program.info(s),
            ],
            seeds: seeds_view(signer_seeds),
        }
    }

    /// Writes the data of the instruction.
    pub fn instruction_data(&self) -> (instruction_data: [u8; 9])
        ensures
            instruction_data@ == self.data(),
    {
        let mut instruction_data = [0u8; 9];
        instruction_data[0] = 3;  // Transfer instruction discriminator
        put_bytes(&mut instruction_data, 1, u64_to_le(self.amount).as_slice());
        assert(instruction_data@ =~= self.data());
        instruction_data
    }

    /// The call, all set but for the seeds.
    pub fn call(&self, input: &Input) -> (call: Call<3, 4, 9>)
        requires
            self.valid_in(input),
        ensures
            forall|signer_seeds: &[&[&[u8]]]|
                #[trigger] call.dispatched(signer_seeds) == self.dispatched(input@, signer_seeds),
    {
        let account_metas = [
            self.from.to_meta_c(input),
            self.to.to_meta_c(input),
            self.authority.to_meta_c_signer(input),
        ];
        let account_infos = [
            self.from.to_info_c(input),
            self.to.to_info_c(input),
            self.authority.to_info_c(input),
            self.token_program.to_info_c(input),
        ];
        let instruction_data = self.instruction_data();
        assert(account_metas@ =~= self.dispatched(input@, &[]).accounts);
        assert(account_infos@ =~= self.dispatched(input@, &[]).infos);

        Call { program_id: self.token_program.key(input), account_metas, account_infos, instruction_data }
    }

    /// Makes the call, signing for the addresses that `signer_seeds` derive.
    pub fn invoke_signed<D: Dispatcher>(
        &self,
        input: &Input,
        dispatcher: &D,
        signer_seeds: &[&[&[u8]]],
    ) -> (r: Result<(), AccountError>)
        requires
            self.valid_in(input),
        ensures
            r is Ok,
            handed(dispatcher, self.dispatched(input@, signer_seeds)),
    {
        self.call(input).invoke_signed(dispatcher, signer_seeds)
    }
}

/// Moves tokens from one account to another and has the program check the
/// mint and its decimals.
pub struct TransferChecked<'a> {
    pub token_program: &'a NoStdAccountInfo,
    pub from: &'a NoStdAccountInfo,
    pub mint: &'a NoStdAccountInfo,
    pub to: &'a NoStdAccountInfo,
    pub authority: &'a NoStdAccountInfo,
    pub amount: u64,
    pub decimals: u8,
}

impl<'a> TransferChecked<'a> {
    /// Whether the accounts are of this input.
    pub open spec fn valid_in(&self, input: &Input) -> bool {
        &&& self.token_program.valid_in(input)
        &&& self.from.valid_in(input)
        &&& self.mint.valid_in(input)
        &&& self.to.valid_in(input)
        &&& self.authority.valid_in(input)
    }

    /// The data of the instruction.
    pub open spec fn data(&self) -> Seq<u8> {
        seq![12u8] + u64_bytes(self.amount) + seq![self.decimals]
    }

    /// What the host is handed: instruction 12 with the amount and the
    /// decimals; the authority signs.
    pub open spec fn dispatched(&self, s: Seq<u8>, signer_seeds: &[&[&[u8]]]) -> Dispatched {
        Dispatched {
            program_id: program_bytes(self.token_program, s),
            accounts: seq![
                self.from.meta(s, false),
                self.mint.meta(s, false),
                self.to.meta(s, false),
                self.authority.meta(s, true),
            ],
            data: self.data(),
            infos: seq![
                self.from.info(s),
                self.mint.info(s),
                self.to.info(s),
                self.authority.info(s),
            ],
            seeds: seeds_view(signer_seeds),
        }
    }

    /// Writes the data of the instruction.
    pub fn instruction_data(&self) -> (instruction_data: [u8; 10])
        ensures
            instruction_data@ == self.data(),
    {
        let mut instruction_data = [0u8; 10];
        instruction_data[0] = 12;  // TransferChecked instruction discriminator
        put_bytes(&mut instruction_data, 1, u64_to_le(self.amount).as_slice());
        instruction_data[9] = self.decimals;
        assert(instruction_data@ =~= self.data());
        instruction_data
    }

    /// The call, all set but for the seeds.
    pub fn call(&self, input: &Input) -> (call: Call<4, 4, 10>)
        requires
            self.valid_in(input),
        ensures
            forall|signer_seeds: &[&[&[u8]]]|
                #[trigger] call.dispatched(signer_seeds) == self.dispatched(input@, signer_seeds),
    {
        let account_metas = [
            self.from.to_meta_c(input),
            self.mint.to_meta_c(input),
            self.to.to_meta_c(input),
            self.authority.to_meta_c_signer(input),
        ];
        let account_infos = [
            self.from.to_info_c(input),
            self.mint.to_info_c(input),
            self.to.to_info_c(input),
            self.authority.to_info_c(input),
        ];
        let instruction_data = self.instruction_data();
        assert(account_metas@ =~= self.dispatched(input@, &[]).accounts);
        assert(account_infos@ =~= self.dispatched(input@, &[]).infos);

        Call { program_id: self.token_program.key(input), account_metas, account_infos, instruction_data }
    }

    /// Makes the call, signing for the addresses that `signer_seeds` derive.
    pub fn invoke_signed<D: Dispatcher>(
        &self,
        input: &Input,
        dispatcher: &D,
        signer_seeds: &[&[&[u8]]],
    ) -> (r: Result<(), AccountError>)
        requires
            self.valid_in(input),
        ensures
            r is Ok,
            handed(dispatcher, self.dispatched(input@, signer_seeds)),
    {
        self.call(input).invoke_signed(dispatcher, signer_seeds)
    }
}

} // verus!
