//! The fixed alphabet that text fields are drawn from.

use vstd::prelude::*;

verus! {

/// The number of symbols in the alphabet.
pub const ALPHABET_SIZE: usize = 62;

/// `count` consecutive characters, starting at `first`.
pub open spec fn char_run(first: char, count: nat) -> Seq<char> {
    Seq::new(count, |i: int| ((first as u32) + i) as char)
}

/// The alphabet: the lowercase letters, then the uppercase letters, then the
/// digits.
pub open spec fn alphabet() -> Seq<char> {
    char_run('a', 26) + char_run('A', 26) + char_run('0', 10)
}

/// `c` is an ASCII letter or digit.
pub open spec fn is_alphabet_symbol(c: char) -> bool {
    ||| 'a' <= c <= 'z'
    ||| 'A' <= c <= 'Z'
    ||| '0' <= c <= '9'
}

/// The alphabet holds `ALPHABET_SIZE` symbols, none of them twice, and they
/// are exactly the ASCII letters and digits.
pub proof fn lemma_alphabet_symbols()
    ensures
        alphabet().len() == ALPHABET_SIZE,
        alphabet().no_duplicates(),
        forall|c: char| alphabet().contains(c) <==> is_alphabet_symbol(c),
{
    let pool: Seq<char> = alphabet();
    assert forall|c: char| is_alphabet_symbol(c) implies pool.contains(c) by {
        if 'a' <= c <= 'z' {
            assert(pool[c as u32 - 'a' as u32] == c);
        } else if 'A' <= c <= 'Z' {
            assert(pool[26 + (c as u32 - 'A' as u32)] == c);
        } else {
            assert(pool[52 + (c as u32 - '0' as u32)] == c);
        }
    }
}

/// Appends `count` consecutive characters, starting at `first`, to `pool`.
fn push_char_run(pool: &mut Vec<char>, first: char, count: u8)
    requires
        first == 'a' || first == 'A' || first == '0',
        count <= 26,
    ensures
        final(pool)@ == old(pool)@ + char_run(first, count as nat),
{
    let mut made: u8 = 0;
    proof {
        assert(pool@ =~= old(pool)@ + char_run(first, 0));
    }
    while made < count
        invariant
            first == 'a' || first == 'A' || first == '0',
            made <= count <= 26,
            pool@ == old(pool)@ + char_run(first, made as nat),
        decreases count - made,
    {
        let symbol = ((first as u8) + made) as char;
        pool.push(symbol);
        made = made + 1;
        proof {
            assert(pool@ =~= old(pool)@ + char_run(first, made as nat));
        }
    }
}

/// Builds the alphabet as a pool to draw text fields from.
pub fn char_pool() -> (pool: Vec<char>)
    ensures
        pool@ == alphabet(),
        pool@.len() == ALPHABET_SIZE,
{
    let mut pool: Vec<char> = Vec::new();
    push_char_run(&mut pool, 'a', 26);
    push_char_run(&mut pool, 'A', 26);
    push_char_run(&mut pool, '0', 10);
    proof {
        assert(pool@ =~= alphabet());
    }
    pool
}

} // verus!
