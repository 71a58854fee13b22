//! The text forms of transaction ids, inscription ids and satpoints.

use vstd::arithmetic::div_mod::lemma_div_denominator;
use vstd::arithmetic::power::lemma_pow0;
use vstd::arithmetic::power::lemma_pow_multiplies;
use vstd::arithmetic::power::lemma_pow_positive;
use vstd::arithmetic::power::pow;
use vstd::prelude::*;
use vstd::string::StringExecFns;

use crate::decimal::decimal;
use crate::decimal::decimal_string;
use crate::decimal::is_digit;
use crate::decimal::law_decimal_injective;
use crate::decimal::law_decimal_value;

verus! {

/// An inscription id as it is stored: the two halves of the transaction id, and
/// the index of the inscription in that transaction.
pub type InscriptionIdValue = (u128, u128, u32);

/// An outpoint as it is stored: the two halves of the transaction id, and the
/// index of the output.
pub type OutPointValue = (u128, u128, u32);

/// A satpoint as it is stored: an outpoint, and the offset of the sat in it.
pub type SatPointValue = (OutPointValue, u64);

/// The hexadecimal digit for `d`, which is below sixteen.
pub open spec fn hex_digit(d: nat) -> char {
    if d < 10 {
        (48 + d) as char
    } else {
        (87 + d) as char
    }
}

/// Two lower-case hexadecimal digits for each byte, the upper half first.
pub open spec fn hex(bytes: Seq<u8>) -> Seq<char> {
    Seq::new(
        2 * bytes.len(),
        |i: int|
            hex_digit(
                if i % 2 == 0 {
                    (bytes[i / 2] / 16) as nat
                } else {
                    (bytes[i / 2] % 16) as nat
                },
            ),
    )
}

/// The lowest `n` bytes of `x`, the lowest first.
pub open spec fn le_bytes(x: nat, n: nat) -> Seq<u8>
    decreases n,
{
    if n == 0 {
        Seq::empty()
    } else {
        seq![(x % 256) as u8] + le_bytes(x / 256, (n - 1) as nat)
    }
}

/// The bytes of a transaction id in the order in which they are shown: from
/// the highest of the second half down to the lowest of the first.
pub open spec fn txid_bytes(head: u128, tail: u128) -> Seq<u8> {
    (le_bytes(head as nat, 16) + le_bytes(tail as nat, 16)).reverse()
}

/// The text of a transaction id.
pub open spec fn txid_text(head: u128, tail: u128) -> Seq<char> {
    hex(txid_bytes(head, tail))
}

/// The text of an inscription id.
pub open spec fn inscription_id_text(id: InscriptionIdValue) -> Seq<char> {
    txid_text(id.0, id.1) + "i"@ + decimal(id.2 as nat)
}

/// The text of a satpoint.
pub open spec fn satpoint_text(p: SatPointValue) -> Seq<char> {
    txid_text(p.0.0, p.0.1) + ":"@ + decimal(p.0.2 as nat) + ":"@ + decimal(p.1 as nat)
}

/// The hexadecimal digit `d` as a string of one character.
fn hex_digit_str(d: u8) -> (s: &'static str)
    requires
        d < 16,
    ensures
        s@ == seq![hex_digit(d as nat)],
{
    proof {
        reveal_strlit("0");
        reveal_strlit("1");
        reveal_strlit("2");
        reveal_strlit("3");
        reveal_strlit("4");
        reveal_strlit("5");
        reveal_strlit("6");
        reveal_strlit("7");
        reveal_strlit("8");
        reveal_strlit("9");
        reveal_strlit("a");
        reveal_strlit("b");
        reveal_strlit("c");
        reveal_strlit("d");
        reveal_strlit("e");
        reveal_strlit("f");
    }
    match d {
        0 => "0",
        1 => "1",
        2 => "2",
        3 => "3",
        4 => "4",
        5 => "5",
        6 => "6",
        7 => "7",
        8 => "8",
        9 => "9",
        10 => "a",
        11 => "b",
        12 => "c",
        13 => "d",
        14 => "e",
        _ => "f",
    }
}

/// Writes 32 bytes as 64 lower-case hexadecimal digits.
pub fn hex32(bytes: [u8; 32]) -> (s: String)
    ensures
        s@ == hex(bytes@),
{
    let mut out = String::new();
    for i in 0..32usize
        invariant
            out@ == hex(bytes@).take(2 * i),
    {
        let b = bytes[i];
        out.append(hex_digit_str(b / 16));
        out.append(hex_digit_str(b % 16));
        assert(hex(bytes@)[2 * i] == hex_digit((b / 16) as nat));
        assert(hex(bytes@)[2 * i + 1] == hex_digit((b % 16) as nat));
        assert(out@ =~= hex(bytes@).take(2 * (i + 1)));
    }
    assert(hex(bytes@).take(64) =~= hex(bytes@));
    out
}

/// Adds the sixteen bytes of `x`, the lowest first.
fn push_le_bytes(out: &mut Vec<u8>, x: u128)
    ensures
        final(out)@ == old(out)@ + le_bytes(x as nat, 16),
{
    let mut rest: u128 = x;
    assert(out@ + le_bytes(x as nat, 16) =~= old(out)@ + le_bytes(x as nat, 16));
    for i in 0..16usize
        invariant
            out@ + le_bytes(rest as nat, (16 - i) as nat) == old(out)@ + le_bytes(x as nat, 16),
    {
        assert(out@.push((rest % 256) as u8) + le_bytes((rest / 256) as nat, (15 - i) as nat)
            =~= out@ + le_bytes(rest as nat, (16 - i) as nat));
        out.push((rest % 256) as u8);
        rest = rest / 256;
    }
    assert(out@ =~= out@ + le_bytes(rest as nat, 0));
}

/// The bytes of a transaction id in the order in which they are shown.
fn shown_bytes(head: u128, tail: u128) -> (bytes: [u8; 32])
    ensures
        bytes@ == txid_bytes(head, tail),
{
    let mut v: Vec<u8> = Vec::new();
    push_le_bytes(&mut v, head);
    push_le_bytes(&mut v, tail);
    proof {
        lemma_le_bytes_len(head as nat, 16);
        lemma_le_bytes_len(tail as nat, 16);
    }
    let mut bytes = [0u8; 32];
    for i in 0..32usize
        invariant
            v@.len() == 32,
            v@ == le_bytes(head as nat, 16) + le_bytes(tail as nat, 16),
            forall|j: int| 0 <= j < i ==> bytes@[j] == v@[31 - j],
    {
        bytes[i] = v[31 - i];
    }
    assert(bytes@ =~= txid_bytes(head, tail));
    bytes
}

/// The text of an inscription id: the transaction id, the letter `i`, and the
/// index.
pub fn inscription_id_string(id: InscriptionIdValue) -> (s: String)
    ensures
        s@ == inscription_id_text(id),
{
    let mut s = hex32(shown_bytes(id.0, id.1));
    s.append("i");
    s.append(decimal_string(id.2 as u64).as_str());
    s
}

/// The text of the transaction id of an outpoint.
pub fn txid_string(outpoint: OutPointValue) -> (s: String)
    ensures
        s@ == txid_text(outpoint.0, outpoint.1),
{
    hex32(shown_bytes(outpoint.0, outpoint.1))
}

/// The text of a satpoint: the transaction id, the index of the output and the
/// offset, with colons between.
pub fn satpoint_string(satpoint: SatPointValue) -> (s: String)
    ensures
        s@ == satpoint_text(satpoint),
{
    let (outpoint, offset) = satpoint;
    let mut s = txid_string(outpoint);
    s.append(":");
    s.append(decimal_string(outpoint.2 as u64).as_str());
    s.append(":");
    s.append(decimal_string(offset).as_str());
    s
}

proof fn lemma_le_bytes_len(x: nat, n: nat)
    ensures
        le_bytes(x, n).len() == n,
    decreases n,
{
    if n > 0 {
        lemma_le_bytes_len(x / 256, (n - 1) as nat);
    }
}

/// The number of values that `n` bytes can have.
spec fn byte_values(n: nat) -> nat
    decreases n,
{
    if n == 0 {
        1
    } else {
        256 * byte_values((n - 1) as nat)
    }
}

proof fn lemma_le_bytes_injective(x: nat, y: nat, n: nat)
    requires
        x < byte_values(n),
        y < byte_values(n),
        le_bytes(x, n) == le_bytes(y, n),
    ensures
        x == y,
    decreases n,
{
    if n > 0 {
        let m = (n - 1) as nat;
        assert(le_bytes(x, n)[0] == (x % 256) as u8);
        assert(le_bytes(y, n)[0] == (y % 256) as u8);
        assert(le_bytes(x, n).drop_first() =~= le_bytes(x / 256, m));
        assert(le_bytes(y, n).drop_first() =~= le_bytes(y / 256, m));
        lemma_le_bytes_injective(x / 256, y / 256, m);
    }
}

proof fn lemma_hex_injective(a: Seq<u8>, b: Seq<u8>)
    requires
        hex(a) == hex(b),
    ensures
        a == b,
{
    assert(hex(a).len() == 2 * a.len());
    assert forall|i: int| 0 <= i < a.len() implies a[i] == b[i] by {
        assert(hex(a)[2 * i] == hex_digit((a[i] / 16) as nat));
        assert(hex(b)[2 * i] == hex_digit((b[i] / 16) as nat));
        assert(hex(a)[2 * i + 1] == hex_digit((a[i] % 16) as nat));
        assert(hex(b)[2 * i + 1] == hex_digit((b[i] % 16) as nat));
    }
    assert(a =~= b);
}

proof fn lemma_txid_text_len(head: u128, tail: u128)
    ensures
        txid_text(head, tail).len() == 64,
{
    lemma_le_bytes_len(head as nat, 16);
    lemma_le_bytes_len(tail as nat, 16);
}

/// Different transaction ids have different texts, each of 64 characters.
pub proof fn law_txid_texts_distinct(head: u128, tail: u128, other_head: u128, other_tail: u128)
    ensures
        txid_text(head, tail).len() == 64,
        txid_text(head, tail) == txid_text(other_head, other_tail) ==> head == other_head && tail
            == other_tail,
{
    lemma_txid_text_len(head, tail);
    if txid_text(head, tail) == txid_text(other_head, other_tail) {
        let a = le_bytes(head as nat, 16) + le_bytes(tail as nat, 16);
        let b = le_bytes(other_head as nat, 16) + le_bytes(other_tail as nat, 16);
        lemma_hex_injective(a.reverse(), b.reverse());
        assert(a =~= a.reverse().reverse());
        assert(b =~= b.reverse().reverse());
        lemma_le_bytes_len(head as nat, 16);
        lemma_le_bytes_len(other_head as nat, 16);
        assert(a.take(16) =~= le_bytes(head as nat, 16));
        assert(b.take(16) =~= le_bytes(other_head as nat, 16));
        assert(a.skip(16) =~= le_bytes(tail as nat, 16));
        assert(b.skip(16) =~= le_bytes(other_tail as nat, 16));
        assert(byte_values(16) == u128::MAX + 1) by {
            reveal_with_fuel(byte_values, 17);
        }
        lemma_le_bytes_injective(head as nat, other_head as nat, 16);
        lemma_le_bytes_injective(tail as nat, other_tail as nat, 16);
    }
}

/// Different inscription ids have different texts.
pub proof fn law_inscription_id_texts_distinct(a: InscriptionIdValue, b: InscriptionIdValue)
    requires
        inscription_id_text(a) == inscription_id_text(b),
    ensures
        a == b,
{
    reveal_strlit("i");
    law_txid_texts_distinct(a.0, a.1, b.0, b.1);
    lemma_txid_text_len(b.0, b.1);
    assert(inscription_id_text(a).take(64) =~= txid_text(a.0, a.1));
    assert(inscription_id_text(b).take(64) =~= txid_text(b.0, b.1));
    assert(inscription_id_text(a).skip(65) =~= decimal(a.2 as nat));
    assert(inscription_id_text(b).skip(65) =~= decimal(b.2 as nat));
    law_decimal_injective(a.2 as nat, b.2 as nat);
}

/// Different satpoints have different texts.
pub proof fn law_satpoint_texts_distinct(a: SatPointValue, b: SatPointValue)
    requires
        satpoint_text(a) == satpoint_text(b),
    ensures
        a == b,
{
    reveal_strlit(":");
    law_txid_texts_distinct(a.0.0, a.0.1, b.0.0, b.0.1);
    lemma_txid_text_len(b.0.0, b.0.1);
    let (x, y) = (decimal(a.0.2 as nat), decimal(b.0.2 as nat));
    law_decimal_value(a.0.2 as nat);
    law_decimal_value(b.0.2 as nat);
    let (s, t) = (satpoint_text(a), satpoint_text(b));
    assert(s.take(64) =~= txid_text(a.0.0, a.0.1));
    assert(t.take(64) =~= txid_text(b.0.0, b.0.1));
    let (m, n) = (x.len() as int, y.len() as int);
    assert(s[65 + m] == ':');
    assert(t[65 + n] == ':');
    assert(m < n ==> t[65 + m] == y[m] && is_digit(y[m]));
    assert(n < m ==> s[65 + n] == x[n] && is_digit(x[n]));
    assert(s.subrange(65, 65 + m) =~= x);
    assert(t.subrange(65, 65 + n) =~= y);
    law_decimal_injective(a.0.2 as nat, b.0.2 as nat);
    assert(s.skip(66 + m) =~= decimal(a.1 as nat));
    assert(t.skip(66 + n) =~= decimal(b.1 as nat));
    law_decimal_injective(a.1 as nat, b.1 as nat);
}

#[verifier::spinoff_prover]
proof fn lemma_le_bytes_joined(x: nat, y: nat, n: nat, m: nat)
    requires
        x < byte_values(n),
    ensures
        le_bytes(x + byte_values(n) * y, n + m) == le_bytes(x, n) + le_bytes(y, m),
    decreases n,
{
    if n == 0 {
        assert(x + byte_values(n) * y == y);
        assert(le_bytes(x, n) + le_bytes(y, m) =~= le_bytes(y, m));
    } else {
        let k = (n - 1) as nat;
        let p = byte_values(k) * y;
        let b = byte_values(k);
        assert(256 * b * y == 256 * (b * y)) by (nonlinear_arith);
        let z = x + byte_values(n) * y;
        assert(z == x + 256 * p);
        assert(z % 256 == x % 256);
        assert(z / 256 == x / 256 + p);
        lemma_le_bytes_joined(x / 256, y, k, m);
        assert((n + m - 1) as nat == k + m);
        assert(le_bytes(z, n + m) =~= seq![(x % 256) as u8] + le_bytes(z / 256, k + m));
        assert(le_bytes(x, n) + le_bytes(y, m) =~= seq![(x % 256) as u8] + (le_bytes(x / 256, k)
            + le_bytes(y, m)));
    }
}

#[verifier::spinoff_prover]
proof fn lemma_le_byte_at(x: nat, n: nat, k: nat)
    requires
        k < n,
    ensures
        le_bytes(x, n).len() == n,
        le_bytes(x, n)[k as int] as int == (x as int / pow(256, k)) % 256,
    decreases n,
{
    lemma_le_bytes_len(x, n);
    let m = (n - 1) as nat;
    lemma_le_bytes_len(x / 256, m);
    if k == 0 {
        lemma_pow0(256);
        assert(le_bytes(x, n)[0] == (x % 256) as u8);
    } else {
        let e = (k - 1) as nat;
        lemma_le_byte_at(x / 256, m, e);
        assert(le_bytes(x, n)[k as int] == le_bytes(x / 256, m)[e as int]);
        assert(pow(256, k) == 256 * pow(256, e)) by {
            reveal(pow);
        }
        lemma_pow_positive(256, e);
        lemma_div_denominator(x as int, 256, pow(256, e));
        assert((x as int / 256) / pow(256, e) == x as int / (256 * pow(256, e)));
    }
}

/// Each byte is two characters: the upper half of its bits, and the lower, each
/// as a digit or as a small letter from `a` on.
pub proof fn law_hex_of_bytes(bytes: Seq<u8>)
    ensures
        hex(bytes).len() == 2 * bytes.len(),
        forall|i: int|
            0 <= i < bytes.len() ==> {
                let b = #[trigger] bytes[i] as int;
                &&& hex(bytes)[2 * i] as int == (if b / 16 < 10 {
                    48 + b / 16
                } else {
                    87 + b / 16
                })
                &&& hex(bytes)[2 * i + 1] as int == (if b % 16 < 10 {
                    48 + b % 16
                } else {
                    87 + b % 16
                })
            },
{
    assert forall|i: int| 0 <= i < bytes.len() implies {
        let b = #[trigger] bytes[i] as int;
        &&& hex(bytes)[2 * i] as int == (if b / 16 < 10 {
            48 + b / 16
        } else {
            87 + b / 16
        })
        &&& hex(bytes)[2 * i + 1] as int == (if b % 16 < 10 {
            48 + b % 16
        } else {
            87 + b % 16
        })
    } by {
        let b = bytes[i];
        assert(hex(bytes)[2 * i] == hex_digit((b / 16) as nat));
        assert(hex(bytes)[2 * i + 1] == hex_digit((b % 16) as nat));
    }
}

/// The halves of a byte of a value are digits of the value to the base sixteen.
#[verifier::spinoff_prover]
proof fn lemma_halves_of_byte(value: int, k: nat, b: int)
    requires
        value >= 0,
        b == (value / pow(256, k)) % 256,
    ensures
        b / 16 == (value / pow(16, 2 * k + 1)) % 16,
        b % 16 == (value / pow(16, 2 * k)) % 16,
{
    assert(pow(16, 2) == 256) by {
        reveal_with_fuel(pow, 3);
    }
    lemma_pow_multiplies(16, 2, k);
    let p = pow(16, 2 * k);
    assert(pow(256, k) == p);
    lemma_pow_positive(16, 2 * k);
    lemma_div_denominator(value, p, 16);
    assert(pow(16, 2 * k + 1) == p * 16) by {
        reveal(pow);
    }
    let w = value / p;
    assert(value / (p * 16) == w / 16);
    lemma_halves(w);
}

#[verifier::spinoff_prover]
proof fn lemma_halves(w: int)
    ensures
        (w % 256) / 16 == (w / 16) % 16,
        (w % 256) % 16 == w % 16,
{
}

/// The text of a transaction id is its value in hexadecimal: 64 digits, of which
/// the one at a place is how often the power of sixteen of that place goes into
/// what the higher places leave. In the value, the second half stands above the
/// first.
#[verifier::spinoff_prover]
pub proof fn law_txid_text_is_its_value(head: u128, tail: u128)
    ensures
        txid_text(head, tail).len() == 64,
        forall|i: int|
            0 <= i < 64 ==> {
                let value = tail * 0x1_0000_0000_0000_0000_0000_0000_0000_0000 + head;
                let d = (value / pow(16, (63 - i) as nat)) % 16;
                (#[trigger] txid_text(head, tail)[i]) as int == (if d < 10 {
                    48 + d
                } else {
                    87 + d
                })
            },
{
    let value = tail * 0x1_0000_0000_0000_0000_0000_0000_0000_0000 + head;
    let all = le_bytes(head as nat, 16) + le_bytes(tail as nat, 16);
    lemma_txid_text_len(head, tail);
    assert(byte_values(16) == 0x1_0000_0000_0000_0000_0000_0000_0000_0000) by {
        reveal_with_fuel(byte_values, 17);
    }
    lemma_le_bytes_joined(head as nat, tail as nat, 16, 16);
    assert(all == le_bytes(value as nat, 32));
    let shown = txid_bytes(head, tail);
    law_hex_of_bytes(shown);
    lemma_le_bytes_len(value as nat, 32);
    assert forall|i: int| 0 <= i < 64 implies {
        let d = (value / pow(16, (63 - i) as nat)) % 16;
        (#[trigger] txid_text(head, tail)[i]) as int == (if d < 10 {
            48 + d
        } else {
            87 + d
        })
    } by {
        let j = i / 2;
        let k = (31 - j) as nat;
        lemma_le_byte_at(value as nat, 32, k);
        assert(shown[j] == all[31 - j]);
        lemma_halves_of_byte(value, k, shown[j] as int);
        if i % 2 == 0 {
            assert(i == 2 * j);
            assert((63 - i) as nat == 2 * k + 1);
        } else {
            assert(i == 2 * j + 1);
            assert((63 - i) as nat == 2 * k);
        }
    }
}

/// An inscription id is shown as the transaction id, the letter `i` and the
/// index; a satpoint as the transaction id, the output and the offset, with
/// colons between. Nothing is left out and nothing added.
pub proof fn law_parts_of_ids(id: InscriptionIdValue, p: SatPointValue)
    ensures
        ({
            let s = inscription_id_text(id);
            &&& s.len() > 65
            &&& s.take(64) == txid_text(id.0, id.1)
            &&& s[64] == 'i'
            &&& s.skip(65) == decimal(id.2 as nat)
        }),
        ({
            let s = satpoint_text(p);
            let m = decimal(p.0.2 as nat).len() as int;
            &&& s.len() > 66 + m
            &&& s.take(64) == txid_text(p.0.0, p.0.1)
            &&& s[64] == ':'
            &&& s.subrange(65, 65 + m) == decimal(p.0.2 as nat)
            &&& s[65 + m] == ':'
            &&& s.skip(66 + m) == decimal(p.1 as nat)
        }),
{
    reveal_strlit("i");
    reveal_strlit(":");
    lemma_txid_text_len(id.0, id.1);
    lemma_txid_text_len(p.0.0, p.0.1);
    law_decimal_value(id.2 as nat);
    law_decimal_value(p.0.2 as nat);
    law_decimal_value(p.1 as nat);
}

} // verus!
