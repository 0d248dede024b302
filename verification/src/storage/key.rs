use crate::models::clock::epoch_nanos;
use vstd::prelude::*;
use vstd::string::StrSliceExecFns;

verus! {

/// The number of characters of a database key.
pub const KEY_LENGTH: usize = 32;

/// The characters that a database key is made of.
pub open spec fn key_alphabet() -> Seq<char> {
    "abcdefghijklmnopqrstuvwxyzABCDEFGHIJKLMNOPQRSTUVWXYZ0123456789"@
}

/// One step of the generator: times a fixed multiplier, plus one, within
/// 128 bits.
#[verifier::opaque]
pub open spec fn next_state(state: u128) -> u128 {
    state.wrapping_mul(6364136223846793005).wrapping_add(1)
}

/// The character that a state of the generator picks from the alphabet.
pub open spec fn picked_char(state: u128) -> char {
    key_alphabet()[(((state >> 33) as usize) % 62) as int]
}

/// The state of the generator after `n` steps from `seed`.
pub open spec fn state_after(seed: u128, n: nat) -> u128
    decreases n,
{
    if n == 0 {
        seed
    } else {
        next_state(state_after(seed, (n - 1) as nat))
    }
}

/// The first `n` characters that the generator yields from `seed`: each
/// step moves the state on and picks one character by the new state.
pub open spec fn key_chars(seed: u128, n: nat) -> Seq<char>
    decreases n,
{
    if n == 0 {
        Seq::empty()
    } else {
        key_chars(seed, (n - 1) as nat).push(picked_char(state_after(seed, n)))
    }
}

/// `String::push` puts one character at the end.
pub assume_specification[ String::push ](text: &mut String, c: char)
    ensures
        final(text)@ == old(text)@.push(c),
;

/// The database key that the generator yields from `seed`.
pub fn key_from_seed(seed: u128) -> (key: String)
    ensures
        key@ == key_chars(seed, KEY_LENGTH as nat),
        key@.len() == KEY_LENGTH,
{
    let charset = "abcdefghijklmnopqrstuvwxyzABCDEFGHIJKLMNOPQRSTUVWXYZ0123456789";
    proof {
        reveal_strlit("abcdefghijklmnopqrstuvwxyzABCDEFGHIJKLMNOPQRSTUVWXYZ0123456789");
    }
    let mut state = seed;
    let mut key = String::new();
    let mut i: usize = 0;
    assert(key_chars(seed, 0) =~= Seq::empty());
    while i < KEY_LENGTH
        invariant
            i <= KEY_LENGTH,
            charset@ == key_alphabet(),
            charset@.len() == 62,
            state == state_after(seed, i as nat),
            key@ == key_chars(seed, i as nat),
            key@.len() == i,
        decreases KEY_LENGTH - i,
    {
        proof {
            reveal(next_state);
        }
        state = state.wrapping_mul(6364136223846793005).wrapping_add(1);
        let idx = ((state >> 33) as usize) % 62;
        key.push(charset.get_char(idx));
        i += 1;
    }
    key
}

/// A database key that is seeded with the current time. A clock that is set
/// before the Unix epoch seeds with 0.
pub fn generate_random_key() -> (key: String)
    ensures
        key@.len() == KEY_LENGTH,
        exists|seed: u128| key@ == key_chars(seed, KEY_LENGTH as nat),
{
    let seed = match epoch_nanos() {
        Some(now) => now,
        None => 0,
    };
    key_from_seed(seed)
}

} // verus!
