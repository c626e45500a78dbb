//! Keys derived from the PAKE's shared secret with BLAKE3's key derivation.
use vstd::prelude::*;
use vstd::string::StringExecFns;
use crate::text::{hex_digit, string_from_chars};

verus! {

/// What `blake3::derive_key` returns for a context string and key material.
pub uninterp spec fn blake3_derive_key_spec(context: Seq<char>, key_material: Seq<u8>) -> Seq<u8>;

/// `blake3::derive_key`: BLAKE3 in key-derivation mode. The 32-byte key
/// depends on the context and the key material alone.
#[verifier::external_body]
fn blake3_derive_key(context: &str, key_material: &[u8]) -> (k: [u8; 32])
    ensures
        k@ == blake3_derive_key_spec(context@, key_material@),
{
    blake3::derive_key(context, key_material)
}

/// The lowercase hexadecimal digits of `n`, without leading zeros ("0" for 0).
pub open spec fn hex_digits(n: nat) -> Seq<char>
    decreases n,
{
    if n < 16 {
        seq![hex_digit(n as u8)]
    } else {
        hex_digits(n / 16).push(hex_digit((n % 16) as u8))
    }
}

/// `{:04x}`: lowercase hexadecimal, left-padded with zeros to four digits.
pub open spec fn hex_min4(n: nat) -> Seq<char> {
    let d = hex_digits(n);
    if d.len() < 4 {
        Seq::new((4 - d.len()) as nat, |i: int| '0') + d
    } else {
        d
    }
}

/// The derivation context of the key for stream `stream_id`.
pub open spec fn stream_context(stream_id: u32) -> Seq<char> {
    "dropwire/stream/"@ + hex_min4(stream_id as nat)
}

/// The value of one hexadecimal digit.
pub open spec fn hex_val(c: char) -> int {
    if '0' <= c <= '9' {
        (c as int) - ('0' as int)
    } else {
        (c as int) - ('a' as int) + 10
    }
}

/// The value of a run of hexadecimal digits.
pub open spec fn hex_value(s: Seq<char>) -> int
    decreases s.len(),
{
    if s.len() == 0 {
        0
    } else {
        hex_value(s.drop_last()) * 16 + hex_val(s.last())
    }
}

proof fn lemma_hex_digit_val(d: u8)
    requires
        d < 16,
    ensures
        hex_val(hex_digit(d)) == d,
{
    if d < 10 {
        assert((hex_digit(d) as int) == 48 + d);
    } else {
        assert((hex_digit(d) as int) == 97 + d - 10);
    }
}

proof fn lemma_hex_digits_value(n: nat)
    ensures
        hex_value(hex_digits(n)) == n,
    decreases n,
{
    let h = hex_digits(n);
    if n < 16 {
        lemma_hex_digit_val(n as u8);
        assert(h.drop_last() =~= Seq::<char>::empty());
        assert(h.last() == hex_digit(n as u8));
        assert(hex_value(h) == hex_value(h.drop_last()) * 16 + hex_val(h.last()));
    } else {
        lemma_hex_digits_value(n / 16);
        lemma_hex_digit_val((n % 16) as u8);
        assert(h.drop_last() =~= hex_digits(n / 16));
        assert(h.last() == hex_digit((n % 16) as u8));
        assert(hex_value(h) == hex_value(h.drop_last()) * 16 + hex_val(h.last()));
        assert(n == (n / 16) * 16 + n % 16);
    }
}

proof fn lemma_zero_padding_value(k: nat, d: Seq<char>)
    ensures
        hex_value(Seq::new(k, |i: int| '0') + d) == hex_value(d),
    decreases d.len() + k,
{
    let z = Seq::new(k, |i: int| '0');
    if d.len() > 0 {
        lemma_zero_padding_value(k, d.drop_last());
        assert((z + d).drop_last() =~= z + d.drop_last());
        assert((z + d).last() == d.last());
    } else if k > 0 {
        lemma_zero_padding_value((k - 1) as nat, d);
        assert((z + d).drop_last() =~= Seq::new((k - 1) as nat, |i: int| '0') + d);
        assert((z + d).last() == '0');
        assert(z + d =~= z);
    } else {
        assert(z + d =~= Seq::<char>::empty());
    }
}

/// Different streams derive their keys under different contexts.
pub proof fn lemma_stream_context_injective(a: u32, b: u32)
    ensures
        stream_context(a) == stream_context(b) ==> a == b,
{
    reveal_strlit("dropwire/stream/");
    let pre = "dropwire/stream/"@;
    if stream_context(a) == stream_context(b) {
        let ha = hex_min4(a as nat);
        let hb = hex_min4(b as nat);
        assert(stream_context(a).skip(pre.len() as int) =~= ha);
        assert(stream_context(b).skip(pre.len() as int) =~= hb);
        lemma_hex_digits_value(a as nat);
        lemma_hex_digits_value(b as nat);
        let da = hex_digits(a as nat);
        let db = hex_digits(b as nat);
        if da.len() < 4 {
            lemma_zero_padding_value((4 - da.len()) as nat, da);
        }
        if db.len() < 4 {
            lemma_zero_padding_value((4 - db.len()) as nat, db);
        }
        assert(hex_value(ha) == a);
        assert(hex_value(hb) == b);
    }
}

/// `hex_digits` in executable form.
fn hex_digits_of(n: u32) -> (v: Vec<char>)
    ensures
        v@ == hex_digits(n as nat),
    decreases n,
{
    let d = (n % 16) as u8;
    let c = if d < 10 {
        (('0' as u8) + d) as char
    } else {
        (('a' as u8) + (d - 10)) as char
    };
    assert(c == hex_digit(d));
    if n < 16 {
        let mut v: Vec<char> = Vec::new();
        v.push(c);
        v
    } else {
        let mut v = hex_digits_of(n / 16);
        v.push(c);
        v
    }
}

/// `{:04x}` in executable form.
fn hex_min4_of(n: u32) -> (v: Vec<char>)
    ensures
        v@ == hex_min4(n as nat),
{
    let d = hex_digits_of(n);
    if d.len() < 4 {
        let mut v: Vec<char> = Vec::new();
        let pad = 4 - d.len();
        let mut i: usize = 0;
        while i < pad
            invariant
                i <= pad,
                pad == 4 - d@.len(),
                v@ == Seq::new(i as nat, |j: int| '0'),
            decreases pad - i,
        {
            v.push('0');
            i = i + 1;
            assert(v@ =~= Seq::new(i as nat, |j: int| '0'));
        }
        let mut k: usize = 0;
        let ghost base = v@;
        while k < d.len()
            invariant
                k <= d@.len(),
                v@ == base + d@.take(k as int),
            decreases d@.len() - k,
        {
            v.push(d[k]);
            k = k + 1;
            assert(d@.take(k as int) =~= d@.take(k - 1).push(d@[k - 1]));
        }
        assert(d@.take(k as int) =~= d@);
        v
    } else {
        d
    }
}

/// The key of parallel stream `stream_id`.
pub fn derive_stream_key(master: &[u8; 32], stream_id: u32) -> (k: [u8; 32])
    ensures
        k@ == blake3_derive_key_spec(stream_context(stream_id), master@),
{
    let digits = string_from_chars(hex_min4_of(stream_id).as_slice());
    let context = String::from_str("dropwire/stream/").concat(digits.as_str());
    blake3_derive_key(context.as_str(), master.as_slice())
}

/// The token both peers prove knowledge of: the first 16 bytes of the key
/// derived under "dropwire/auth/v1".
pub fn derive_auth_token(master: &[u8; 32]) -> (t: [u8; 16])
    ensures
        t@ == blake3_derive_key_spec("dropwire/auth/v1"@, master@).take(16),
{
    let context = "dropwire/auth/v1";
    let key = blake3_derive_key(context, master.as_slice());
    let mut token = [0u8; 16];
    let mut i: usize = 0;
    while i < 16
        invariant
            i <= 16,
            key@ == blake3_derive_key_spec("dropwire/auth/v1"@, master@),
            forall|j: int| 0 <= j < i ==> token@[j] == key@[j],
        decreases 16 - i,
    {
        token[i] = key[i];
        i = i + 1;
    }
    assert(token@ =~= key@.take(16));
    token
}

/// The key that encrypts control frames, derived under "dropwire/control/v1".
pub fn derive_control_key(master: &[u8; 32]) -> (k: [u8; 32])
    ensures
        k@ == blake3_derive_key_spec("dropwire/control/v1"@, master@),
{
    let context = "dropwire/control/v1";
    blake3_derive_key(context, master.as_slice())
}

} // verus!
