//! What holds of the written forms of numbers, bytes, outputs and coins.

use vstd::prelude::*;
use crate::coin::{coin_id_text, CoinId};
use crate::text::{decimal, decimal_digit, hex_bytes, hex_digit, hex_text, hex_value, is_hex_text};
use crate::utxo::outpoint_text;

verus! {

/// Different numbers have different decimal notations.
pub proof fn law_decimal_is_one_to_one(m: nat, n: nat)
    requires
        decimal(m) == decimal(n),
    ensures
        m == n,
    decreases m,
{
    lemma_decimal_len(m);
    lemma_decimal_len(n);
    if m < 10 {
        assert(decimal(m).len() == 1);
        assert(n < 10);
        assert(decimal(m)[0] == decimal_digit(m as int));
        assert(decimal(n)[0] == decimal_digit(n as int));
        lemma_digit_is_one_to_one(m as int, n as int);
    } else {
        assert(n >= 10);
        let dm = decimal_digit((m % 10) as int);
        let dn = decimal_digit((n % 10) as int);
        assert(decimal(m).last() == dm);
        assert(decimal(n).last() == dn);
        assert(decimal(m).drop_last() =~= decimal(m / 10));
        assert(decimal(n).drop_last() =~= decimal(n / 10));
        law_decimal_is_one_to_one(m / 10, n / 10);
        lemma_digit_is_one_to_one((m % 10) as int, (n % 10) as int);
    }
}

/// Different digits have different characters.
proof fn lemma_digit_is_one_to_one(d: int, e: int)
    requires
        0 <= d < 10,
        0 <= e < 10,
        decimal_digit(d) == decimal_digit(e),
    ensures
        d == e,
{
    assert(decimal_digit(d) as int == '0' as int + d);
    assert(decimal_digit(e) as int == '0' as int + e);
}

/// A decimal notation has more than one digit if and only if the number is not below ten.
proof fn lemma_decimal_len(n: nat)
    ensures
        decimal(n).len() >= 1,
        decimal(n).len() == 1 <==> n < 10,
    decreases n,
{
    if n >= 10 {
        lemma_decimal_len(n / 10);
    }
}

/// A decimal notation has no character but digits.
proof fn lemma_decimal_digits(n: nat, i: int)
    requires
        0 <= i < decimal(n).len(),
    ensures
        '0' <= decimal(n)[i] <= '9',
    decreases n,
{
    if n >= 10 && i < decimal(n / 10).len() {
        lemma_decimal_digits(n / 10, i);
    }
}

/// The hex form of bytes is hex text, and reading it gives the bytes back.
pub proof fn law_hex_reads_back(bytes: Seq<u8>)
    ensures
        is_hex_text(hex_text(bytes)),
        hex_bytes(hex_text(bytes)) == bytes,
{
    let text = hex_text(bytes);
    assert(forall|d: int| 0 <= d < 16 ==> hex_value(#[trigger] hex_digit(d)) == Some(d));
    assert forall|i: int| 0 <= i < text.len() implies hex_value(#[trigger] text[i]) is Some by {
        let b = bytes[i / 2] as int;
        assert(0 <= b / 16 < 16 && 0 <= b % 16 < 16);
    }
    assert forall|i: int| 0 <= i < bytes.len() implies #[trigger] hex_bytes(text)[i]
        == bytes[i] by {
        let b = bytes[i] as int;
        assert(0 <= b / 16 < 16 && 0 <= b % 16 < 16);
        assert((2 * i) / 2 == i && (2 * i + 1) / 2 == i);
        assert(text[2 * i] == hex_digit(b / 16));
        assert(text[2 * i + 1] == hex_digit(b % 16));
    }
    assert(hex_bytes(text) =~= bytes);
}

/// Different outputs are written differently: what a transaction says it spends names one output
/// of one transaction.
pub proof fn law_outpoints_are_one_to_one(a: Seq<u8>, vout_a: u32, b: Seq<u8>, vout_b: u32)
    requires
        a.len() == 32,
        b.len() == 32,
        outpoint_text(a, vout_a) == outpoint_text(b, vout_b),
    ensures
        a == b,
        vout_a == vout_b,
{
    let text = outpoint_text(a, vout_a);
    let ha = hex_text(a.reverse());
    let hb = hex_text(b.reverse());
    assert(text.take(64) =~= ha);
    assert(text.take(64) =~= hb);
    law_hex_reads_back(a.reverse());
    law_hex_reads_back(b.reverse());
    assert(a =~= a.reverse().reverse());
    assert(b =~= b.reverse().reverse());
    assert(text.skip(65) =~= decimal(vout_a as nat));
    assert(text.skip(65) =~= decimal(vout_b as nat));
    law_decimal_is_one_to_one(vout_a as nat, vout_b as nat);
}

/// Different coins are written differently.
pub proof fn law_coin_ids_are_one_to_one(a: CoinId, b: CoinId)
    requires
        coin_id_text(a) == coin_id_text(b),
    ensures
        a == b,
{
    let text = coin_id_text(a);
    let na = decimal(a.block as nat).len() as int;
    let nb = decimal(b.block as nat).len() as int;
    assert(text[na] == ':');
    assert(text[nb] == ':');
    if na < nb {
        lemma_decimal_digits(b.block as nat, na);
    } else if nb < na {
        lemma_decimal_digits(a.block as nat, nb);
    }
    assert(text.take(na) =~= decimal(a.block as nat));
    assert(text.take(nb) =~= decimal(b.block as nat));
    law_decimal_is_one_to_one(a.block as nat, b.block as nat);
    assert(text.skip(na + 1) =~= decimal(a.tx as nat));
    assert(text.skip(nb + 1) =~= decimal(b.tx as nat));
    law_decimal_is_one_to_one(a.tx as nat, b.tx as nat);
}

} // verus!
