use vstd::prelude::*;
use crate::text::{push_signed, push_str, signed_decimal, string_of};

verus! {

/// Linux `RNDADDENTROPY`: `_IOW('R', 0x03, int[2])`.
pub const RNDADDENTROPY: u64 = 0x4008_5203;

/// Linux `RNDGETENTCNT`: `_IOR('R', 0x00, int)`.
pub const RNDGETENTCNT: u64 = 0x8004_5200;

/// The kernel entropy count, in bits, below which TLS start-up blocks.
pub const TARGET_ENTROPY_BITS: i32 = 256;

/// The count kept as a cushion above the target.
pub const MAINTAIN_ENTROPY_BITS: i32 = 512;

/// Bytes of jitter fed to the kernel per round.
pub const BYTES_PER_ROUND: usize = 64;

/// Rounds allowed at start-up.
pub const STARTUP_MAX_ROUNDS: usize = 64;

/// The next step of topping up the kernel's entropy count.
pub enum CreditStep {
    /// Feed another block of jitter to the kernel and read the count again.
    AddBlock,
    /// Stop, with the final count or the reason the goal was missed.
    Finish(Result<i32, String>),
}

/// Decides the next step after `rounds_done` rounds with the count at
/// `after` bits: continue while the goal is not met and rounds are left;
/// then fail if the count is still below `TARGET_ENTROPY_BITS`.
pub fn credit_step(after: i32, goal_bits: i32, rounds_done: usize, max_rounds: usize) -> (s: CreditStep)
    ensures
        rounds_done < max_rounds && after < goal_bits ==> s is AddBlock,
        !(rounds_done < max_rounds && after < goal_bits) && after < TARGET_ENTROPY_BITS ==> (s matches CreditStep::Finish(Err(e))
            && e@ == "entropy_avail stayed at "@ + signed_decimal(after as int) + " bits (goal "@
            + signed_decimal(goal_bits as int) + ")"@),
        !(rounds_done < max_rounds && after < goal_bits) && after >= TARGET_ENTROPY_BITS ==> s
            == CreditStep::Finish(Ok(after)),
{
    if rounds_done < max_rounds && after < goal_bits {
        return CreditStep::AddBlock;
    }
    if after < TARGET_ENTROPY_BITS {
        let mut msg: Vec<char> = Vec::new();
        push_str(&mut msg, "entropy_avail stayed at ");
        push_signed(&mut msg, after as i64);
        push_str(&mut msg, " bits (goal ");
        push_signed(&mut msg, goal_bits as i64);
        push_str(&mut msg, ")");
        return CreditStep::Finish(Err(string_of(&msg)));
    }
    CreditStep::Finish(Ok(after))
}

/// The entropy credited for a block of `len` bytes: eight bits a byte, as
/// an `i32` (truncated as `as` does).
pub fn credit_bits(len: usize) -> (r: i32)
    requires
        len * 8 <= usize::MAX,
    ensures
        r == (len * 8) as i32,
        len * 8 <= i32::MAX ==> r == len * 8,
{
    (len * 8) as i32
}

/// The little-endian bytes of `words`, cut to `len` bytes: how a block is
/// filled from successive 64-bit jitter samples.
pub open spec fn le_bytes_of(words: Seq<u64>, len: nat) -> Seq<u8> {
    Seq::new(len, |i: int| ((words[i / 8] >> (8 * (i % 8)) as u64) & 0xff) as u8)
}

/// Fills a block of `len` bytes from 64-bit samples, eight little-endian
/// bytes per sample.
pub fn fill_from_words(words: &Vec<u64>, len: usize) -> (r: Vec<u8>)
    requires
        len <= words@.len() * 8,
    ensures
        r@ == le_bytes_of(words@, len as nat),
{
    let mut out: Vec<u8> = Vec::new();
    let mut i: usize = 0;
    while i < len
        invariant
            i <= len,
            len <= words@.len() * 8,
            out@ == le_bytes_of(words@, i as nat),
        decreases len - i,
    {
        let word = words[i / 8];
        let shift: u64 = (8 * (i % 8)) as u64;
        let byte: u8 = ((word >> shift) & 0xff) as u8;
        out.push(byte);
        assert(out@ =~= le_bytes_of(words@, (i + 1) as nat));
        i = i + 1;
    }
    out
}

} // verus!
