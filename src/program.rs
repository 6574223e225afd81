//! The handler that advances the counter of the first account.

use crate::record::{le_bytes, le_value, lemma_round_trip, ThumbState, COUNTER_MODULUS, RECORD_LEN};
use vstd::prelude::*;

verus! {

/// Number of bytes in an account address.
pub const ADDRESS_LEN: usize = 32;

/// The identity of a program or an account owner.
#[derive(Clone, Copy, Debug)]
pub struct Address {
    pub bytes: [u8; 32],
}

impl View for Address {
    type V = Seq<u8>;

    open spec fn view(&self) -> Seq<u8> {
        self.bytes@
    }
}

impl Address {
    /// Whether the two addresses hold the same bytes.
    pub fn same_as(&self, other: &Address) -> (r: bool)
        ensures
            r == (self@ == other@),
    {
        let mut i: usize = 0;
        while i < ADDRESS_LEN
            invariant
                0 <= i <= ADDRESS_LEN,
                self@.len() == ADDRESS_LEN,
                other@.len() == ADDRESS_LEN,
                forall|j: int| 0 <= j < i ==> self@[j] == other@[j],
            decreases ADDRESS_LEN - i,
        {
            if self.bytes[i] != other.bytes[i] {
                return false;
            }
            i = i + 1;
        }
        assert(self@ =~= other@);
        true
    }
}

/// An account handed to the handler: who owns it, and the bytes it stores.
#[derive(Debug)]
pub struct Account {
    pub owner: Address,
    pub data: Vec<u8>,
}

/// Why the handler refused to act.
#[derive(Debug)]
pub enum ThumbError {
    /// No account was supplied.
    MissingAccount,
    /// The first account is not owned by the calling program.
    OwnershipMismatch,
    /// The account's bytes are not a record; holds the decoder's message.
    DecodeError(String),
}

/// The bytes of the record that follows the one stored in `data`: its counter
/// plus one, wrapping to zero after the largest `u32`.
pub open spec fn incremented(data: Seq<u8>) -> Seq<u8> {
    le_bytes(((le_value(data) + 1) % (COUNTER_MODULUS as int)) as u32)
}

/// The bytes after `n` successful calls on an account that held `data`.
pub open spec fn after_calls(data: Seq<u8>, n: nat) -> Seq<u8>
    decreases n,
{
    if n == 0 {
        data
    } else {
        incremented(after_calls(data, (n - 1) as nat))
    }
}

/// Starting from a zero counter, `n` successful calls leave a record whose
/// counter is `n` modulo 2^32; every record along the way has the length that
/// the handler accepts, so each call succeeds when the owner matches.
pub proof fn lemma_counter_after_calls(n: nat)
    ensures
        after_calls(le_bytes(0), n) == le_bytes((n as int % (COUNTER_MODULUS as int)) as u32),
        after_calls(le_bytes(0), n).len() == RECORD_LEN,
        le_value(after_calls(le_bytes(0), n)) == n as int % (COUNTER_MODULUS as int),
    decreases n,
{
    let m = COUNTER_MODULUS as int;
    if n == 0 {
        lemma_round_trip(0);
    } else {
        lemma_counter_after_calls((n - 1) as nat);
        let k = ((n - 1) as int % m) as u32;
        lemma_round_trip(k);
        assert((k as int + 1) % m == n as int % m) by {
            vstd::arithmetic::div_mod::lemma_add_mod_noop((n - 1) as int, 1, m);
            vstd::arithmetic::div_mod::lemma_small_mod(1, m as nat);
        }
        lemma_round_trip((n as int % m) as u32);
    }
}

/// Advances the counter stored in one account, after checking that the
/// calling program owns it.
fn process_account(program_id: &Address, account: &mut Account) -> (r: Result<(), ThumbError>)
    ensures
        final(account).owner == old(account).owner,
        old(account).owner@ != program_id@ ==> r == Err::<(), ThumbError>(
            ThumbError::OwnershipMismatch,
        ),
        old(account).owner@ == program_id@ && old(account).data@.len() != RECORD_LEN ==> (
        r is Err && r->Err_0 is DecodeError),
        r is Err ==> *final(account) == *old(account),
        old(account).owner@ == program_id@ && old(account).data@.len() == RECORD_LEN ==> (r is Ok
            && final(account).data@ == incremented(old(account).data@)),
{
    if !account.owner.same_as(program_id) {
        return Err(ThumbError::OwnershipMismatch);
    }
    let mut thumb = match ThumbState::try_from_slice(account.data.as_slice()) {
        Ok(t) => t,
        Err(e) => {
            return Err(ThumbError::DecodeError(e));
        },
    };
    thumb.thumbs = thumb.thumbs.wrapping_add(1);
    let ghost before = account.data@;
    match thumb.serialize(&mut account.data) {
        Ok(()) => {
            assert(before.subrange(RECORD_LEN as int, before.len() as int) =~= Seq::<u8>::empty());
            assert(account.data@ =~= incremented(before));
            Ok(())
        },
        Err(e) => Err(ThumbError::DecodeError(e)),
    }
}

/// Handles one call: the first account must exist and be owned by
/// `program_id`, and its bytes must be one record. Its counter is then
/// advanced by one, wrapping, and written back over the same bytes. The
/// instruction bytes are not read. On an error no account is changed.
pub fn process_instruction(
    program_id: &Address,
    accounts: &mut [Account],
    _instruction_data: &[u8],
) -> (r: Result<(), ThumbError>)
    ensures
        final(accounts)@.len() == old(accounts)@.len(),
        old(accounts)@.len() == 0 ==> r == Err::<(), ThumbError>(ThumbError::MissingAccount),
        old(accounts)@.len() > 0 && old(accounts)@[0].owner@ != program_id@ ==> r == Err::<
            (),
            ThumbError,
        >(ThumbError::OwnershipMismatch),
        old(accounts)@.len() > 0 && old(accounts)@[0].owner@ == program_id@ && old(
            accounts,
        )@[0].data@.len() != RECORD_LEN ==> (r is Err && r->Err_0 is DecodeError),
        r is Err ==> final(accounts)@ == old(accounts)@,
        old(accounts)@.len() > 0 && old(accounts)@[0].owner@ == program_id@ && old(
            accounts,
        )@[0].data@.len() == RECORD_LEN ==> (r is Ok && final(accounts)@[0].owner
            == old(accounts)@[0].owner && final(accounts)@[0].data@ == incremented(
            old(accounts)@[0].data@,
        ) && final(accounts)@.subrange(1, old(accounts)@.len() as int) == old(
            accounts,
        )@.subrange(1, old(accounts)@.len() as int)),
{
    let ghost before = accounts@;
    let r = match accounts.first_mut() {
        None => Err(ThumbError::MissingAccount),
        Some(account) => process_account(program_id, account),
    };
    proof {
        if r is Err {
            assert(accounts@ =~= before);
        }
    }
    r
}

} // verus!
