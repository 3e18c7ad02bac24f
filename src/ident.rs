//! Random identifiers, built from numbers drawn by the caller.
use vstd::prelude::*;

use crate::store::texts;
use crate::text::{string_of, url_safe};

verus! {

/// The number of characters identifiers are drawn from.
pub const ALPHABET_LEN: u64 = 62;

/// The characters identifiers are drawn from: ASCII letters and digits.
pub open spec fn id_alphabet() -> Seq<char> {
    seq!['a', 'b', 'c', 'd', 'e', 'f', 'g', 'h', 'i', 'j', 'k', 'l', 'm', 'n', 'o', 'p', 'q', 'r', 's', 't', 'u', 'v', 'w', 'x', 'y', 'z', 'A', 'B', 'C', 'D', 'E', 'F', 'G', 'H', 'I', 'J', 'K', 'L', 'M', 'N', 'O', 'P', 'Q', 'R', 'S', 'T', 'U', 'V', 'W', 'X', 'Y', 'Z', '0', '1', '2', '3', '4', '5', '6', '7', '8', '9']
}

/// Every character of the alphabet may stand in an identifier as it is.
pub proof fn lemma_alphabet_url_safe()
    ensures
        id_alphabet().len() == ALPHABET_LEN,
        forall|j: int| 0 <= j < id_alphabet().len() ==> url_safe(#[trigger] id_alphabet()[j]),
{
}

/// The identifier whose `i`-th character is the alphabet's character at
/// `draws[i]` modulo the alphabet's size.
pub open spec fn ident_of(draws: Seq<u64>) -> Seq<char> {
    Seq::new(draws.len(), |i: int| id_alphabet()[(draws[i] % ALPHABET_LEN) as int])
}

/// Every character of `s` is in the alphabet.
pub open spec fn alphabet_only(s: Seq<char>) -> bool {
    forall|i: int| 0 <= i < s.len() ==> id_alphabet().contains(#[trigger] s[i])
}

/// The identifiers of the rows of `draws` that hold exactly `len` numbers, in order.
pub open spec fn draw_ids(draws: Seq<Seq<u64>>, len: int) -> Seq<Seq<char>>
    decreases draws.len(),
{
    if draws.len() == 0 {
        Seq::empty()
    } else {
        let rest = draw_ids(draws.drop_last(), len);
        if draws.last().len() == len {
            rest.push(ident_of(draws.last()))
        } else {
            rest
        }
    }
}

/// The candidate identifiers drawn for one creation: of the first `attempts`
/// rows of `draws`, those that hold `len` numbers, turned into identifiers.
pub open spec fn generated_ids(draws: Seq<Seq<u64>>, len: int, attempts: int) -> Seq<Seq<char>> {
    if draws.len() <= attempts {
        draw_ids(draws, len)
    } else {
        draw_ids(draws.take(attempts), len)
    }
}

/// The number rows of a list of draws.
pub open spec fn draw_rows(draws: Seq<Vec<u64>>) -> Seq<Seq<u64>> {
    draws.map_values(|d: Vec<u64>| d@)
}

/// Every identifier built from draws is made of the alphabet's characters.
pub proof fn lemma_ident_alphabet_only(draws: Seq<u64>)
    ensures
        alphabet_only(ident_of(draws)),
{
    assert forall|i: int| 0 <= i < ident_of(draws).len() implies id_alphabet().contains(
        #[trigger] ident_of(draws)[i],
    ) by {
        let j = (draws[i] % ALPHABET_LEN) as int;
        assert(id_alphabet()[j] == ident_of(draws)[i]);
    }
}

/// Every drawn identifier has `len` characters, all of the alphabet.
pub proof fn lemma_draw_ids_shape(draws: Seq<Seq<u64>>, len: int)
    ensures
        forall|k: int|
            0 <= k < draw_ids(draws, len).len() ==> (#[trigger] draw_ids(draws, len)[k]).len()
                == len && alphabet_only(draw_ids(draws, len)[k]),
    decreases draws.len(),
{
    if draws.len() > 0 {
        let rest = draw_ids(draws.drop_last(), len);
        lemma_draw_ids_shape(draws.drop_last(), len);
        lemma_ident_alphabet_only(draws.last());
        assert forall|k: int| 0 <= k < draw_ids(draws, len).len() implies (#[trigger] draw_ids(
            draws,
            len,
        )[k]).len() == len && alphabet_only(draw_ids(draws, len)[k]) by {
            if k < rest.len() {
                assert(draw_ids(draws, len)[k] == rest[k]);
            }
        }
    }
}

/// The identifier whose `i`-th character is the alphabet's character at
/// `draws[i]` modulo the alphabet's size.
pub fn identifier_from_draws(draws: &Vec<u64>) -> (r: String)
    ensures
        r@ == ident_of(draws@),
        forall|i: int| 0 <= i < r@.len() ==> url_safe(#[trigger] r@[i]),
{
    let alphabet: Vec<char> = vec!['a', 'b', 'c', 'd', 'e', 'f', 'g', 'h', 'i', 'j', 'k', 'l', 'm', 'n', 'o', 'p', 'q', 'r', 's', 't', 'u', 'v', 'w', 'x', 'y', 'z', 'A', 'B', 'C', 'D', 'E', 'F', 'G', 'H', 'I', 'J', 'K', 'L', 'M', 'N', 'O', 'P', 'Q', 'R', 'S', 'T', 'U', 'V', 'W', 'X', 'Y', 'Z', '0', '1', '2', '3', '4', '5', '6', '7', '8', '9'];
    assert(alphabet@ =~= id_alphabet());
    proof {
        lemma_alphabet_url_safe();
    }
    let mut out: Vec<char> = Vec::new();
    let mut i: usize = 0;
    while i < draws.len()
        invariant
            alphabet@ == id_alphabet(),
            0 <= i <= draws@.len(),
            out@.len() == i,
            forall|k: int|
                0 <= k < i ==> out@[k] == id_alphabet()[(draws@[k] % ALPHABET_LEN) as int],
        decreases draws.len() - i,
    {
        let k = (draws[i] % ALPHABET_LEN) as usize;
        out.push(alphabet[k]);
        i = i + 1;
    }
    assert forall|k: int| 0 <= k < out@.len() implies url_safe(#[trigger] out@[k]) by {
        assert(out@[k] == id_alphabet()[(draws@[k] % ALPHABET_LEN) as int]);
    }
    assert(out@ =~= ident_of(draws@));
    string_of(&out)
}

/// The candidate identifiers for one creation: of the first `attempts` rows
/// of `draws`, each that holds exactly `len` numbers becomes an identifier.
pub fn candidate_ids(draws: &Vec<Vec<u64>>, len: usize, attempts: usize) -> (r: Vec<String>)
    ensures
        texts(r@) == generated_ids(draw_rows(draws@), len as int, attempts as int),
{
    let ghost rows = draw_rows(draws@);
    let n: usize = if draws.len() <= attempts {
        draws.len()
    } else {
        attempts
    };
    let ghost used = if rows.len() <= attempts {
        rows
    } else {
        rows.take(attempts as int)
    };
    assert(used.len() == n);
    let mut out: Vec<String> = Vec::new();
    let mut i: usize = 0;
    while i < n
        invariant
            n <= draws@.len(),
            used.len() == n,
            rows == draw_rows(draws@),
            forall|k: int| 0 <= k < n ==> used[k] == rows[k],
            0 <= i <= n,
            texts(out@) == draw_ids(used.take(i as int), len as int),
        decreases n - i,
    {
        assert(used.take(i + 1).drop_last() =~= used.take(i as int));
        assert(used.take(i + 1).last() == draws@[i as int]@);
        if draws[i].len() == len {
            let id = identifier_from_draws(&draws[i]);
            out.push(id);
        }
        i = i + 1;
        assert(texts(out@) =~= draw_ids(used.take(i as int), len as int));
    }
    assert(used.take(n as int) =~= used);
    out
}

} // verus!
