//! A verified encoder and decoder for the MessagePack subset that the
//! evaluator protocol uses on the wire: nil, booleans, 64-bit integers,
//! UTF-8 strings, binary blobs, arrays and string-keyed maps.
//!
//! Every frame that crosses the process boundary is one encoded `Value`.
//! The byte layout is fixed by the engine's published binary encoding and
//! is stated here, exactly, as spec functions over sequences of bytes.
use vstd::prelude::*;

verus! {

use vstd::utf8::{encode_utf8, decode_utf8, valid_utf8};
use vstd::string::StringSliceAdditionalSpecFns;

broadcast use {vstd::std_specs::vec::group_vec_axioms, vstd::seq::group_seq_axioms};

/// One MessagePack value as held in memory.
#[derive(Debug, PartialEq)]
pub enum Value {
    Nil,
    Bool(bool),
    Int(i64),
    Str(String),
    Bin(Vec<u8>),
    Arr(Vec<Value>),
    Dict(Vec<(String, Value)>),
}

/// The mathematical shape of a MessagePack value: integers are unbounded,
/// strings are character sequences, and children are sequences.
pub enum ValueV {
    Nil,
    Bool(bool),
    Int(int),
    Str(Seq<char>),
    Bin(Seq<u8>),
    Arr(Seq<ValueV>),
    Dict(Seq<(Seq<char>, ValueV)>),
}

/// The views of the elements of a sequence of values.
pub open spec fn seq_view(s: Seq<Value>) -> Seq<ValueV>
    decreases s,
{
    if s.len() == 0 {
        Seq::empty()
    } else {
        seq![s.first()@] + seq_view(s.drop_first())
    }
}

/// The views of the entries of a sequence of key-value pairs.
pub open spec fn pairs_view(s: Seq<(String, Value)>) -> Seq<(Seq<char>, ValueV)>
    decreases s,
{
    if s.len() == 0 {
        Seq::empty()
    } else {
        seq![(s.first().0@, s.first().1@)] + pairs_view(s.drop_first())
    }
}

impl View for Value {
    type V = ValueV;

    open spec fn view(&self) -> ValueV
        decreases self,
    {
        match self {
            Value::Nil => ValueV::Nil,
            Value::Bool(b) => ValueV::Bool(*b),
            Value::Int(i) => ValueV::Int(*i as int),
            Value::Str(s) => ValueV::Str(s@),
            Value::Bin(b) => ValueV::Bin(b@),
            Value::Arr(a) => ValueV::Arr(seq_view(a@)),
            Value::Dict(m) => ValueV::Dict(pairs_view(m@)),
        }
    }
}

pub proof fn lemma_seq_view(s: Seq<Value>)
    ensures
        seq_view(s).len() == s.len(),
        forall|i: int| 0 <= i < s.len() ==> seq_view(s)[i] == s[i]@,
    decreases s,
{
    if s.len() > 0 {
        lemma_seq_view(s.drop_first());
        assert(seq_view(s) == seq![s.first()@] + seq_view(s.drop_first()));
        assert(seq_view(s).len() == s.len());
        assert forall|i: int| 0 <= i < s.len() implies seq_view(s)[i] == s[i]@ by {
            if i == 0 {
                assert(seq_view(s)[0] == s.first()@);
            } else {
                assert(seq_view(s)[i] == seq_view(s.drop_first())[i - 1]);
                assert(s.drop_first()[i - 1] == s[i]);
            }
        }
    }
}

pub proof fn lemma_pairs_view(s: Seq<(String, Value)>)
    ensures
        pairs_view(s).len() == s.len(),
        forall|i: int| 0 <= i < s.len() ==> pairs_view(s)[i] == (s[i].0@, s[i].1@),
    decreases s,
{
    if s.len() > 0 {
        lemma_pairs_view(s.drop_first());
        assert(pairs_view(s) == seq![(s.first().0@, s.first().1@)] + pairs_view(s.drop_first()));
        assert(pairs_view(s).len() == s.len());
        assert forall|i: int| 0 <= i < s.len() implies pairs_view(s)[i] == (s[i].0@, s[i].1@) by {
            if i == 0 {
                assert(pairs_view(s)[0] == (s.first().0@, s.first().1@));
            } else {
                assert(pairs_view(s)[i] == pairs_view(s.drop_first())[i - 1]);
                assert(s.drop_first()[i - 1] == s[i]);
            }
        }
    }
}

pub proof fn lemma_seq_view_push(s: Seq<Value>, x: Value)
    ensures
        seq_view(s.push(x)) == seq_view(s) + seq![x@],
{
    lemma_seq_view(s);
    lemma_seq_view(s.push(x));
    assert(seq_view(s.push(x)) =~= seq_view(s) + seq![x@]);
}

pub proof fn lemma_pairs_view_push(s: Seq<(String, Value)>, x: (String, Value))
    ensures
        pairs_view(s.push(x)) == pairs_view(s) + seq![(x.0@, x.1@)],
{
    lemma_pairs_view(s);
    lemma_pairs_view(s.push(x));
    assert(pairs_view(s.push(x)) =~= pairs_view(s) + seq![(x.0@, x.1@)]);
}

/// 256 raised to `n`: the number of values that `n` bytes can hold.
pub open spec fn pow256(n: nat) -> nat
    decreases n,
{
    if n == 0 {
        1
    } else {
        256 * pow256((n - 1) as nat)
    }
}

/// The low `n` bytes of `v`, big-endian.
pub open spec fn be_bytes(v: nat, n: nat) -> Seq<u8>
    decreases n,
{
    if n == 0 {
        Seq::empty()
    } else {
        be_bytes(v / 256, (n - 1) as nat).push((v % 256) as u8)
    }
}

/// A value the wire format can carry: integers fit in 64 bits signed and
/// every length fits in 32 bits, recursively.
pub open spec fn valid(v: ValueV) -> bool
    decreases v,
{
    match v {
        ValueV::Nil => true,
        ValueV::Bool(_) => true,
        ValueV::Int(i) => i64::MIN <= i <= i64::MAX,
        ValueV::Str(s) => encode_utf8(s).len() < 0x1_0000_0000,
        ValueV::Bin(b) => b.len() < 0x1_0000_0000,
        ValueV::Arr(a) => a.len() < 0x1_0000_0000 && (forall|i: int|
            0 <= i < a.len() ==> valid(#[trigger] a[i])),
        ValueV::Dict(m) => m.len() < 0x1_0000_0000 && (forall|i: int|
            0 <= i < m.len() ==> encode_utf8((#[trigger] m[i]).0).len() < 0x1_0000_0000 && valid(
                m[i].1,
            )),
    }
}

/// The most compact MessagePack encoding of the integer `i`, as the
/// engine's encoder and decoder agree on it: non-negative values use the
/// unsigned formats, negative values the signed ones, smallest first.
/// Negative values appear as their 64-bit two's complement, of which
/// `be_bytes` keeps the low bytes.
pub open spec fn enc_int(i: int) -> Seq<u8> {
    if 0 <= i <= 127 {
        seq![i as u8]
    } else if 128 <= i <= 255 {
        seq![0xccu8, i as u8]
    } else if 256 <= i <= 65535 {
        seq![0xcdu8] + be_bytes(i as nat, 2)
    } else if 65536 <= i <= 0xFFFF_FFFF {
        seq![0xceu8] + be_bytes(i as nat, 4)
    } else if i > 0xFFFF_FFFF {
        seq![0xcfu8] + be_bytes(i as nat, 8)
    } else if -32 <= i <= -1 {
        seq![(i + 256) as u8]
    } else if -128 <= i <= -33 {
        seq![0xd0u8, (i + 256) as u8]
    } else if -32768 <= i <= -129 {
        seq![0xd1u8] + be_bytes((i + 0x1_0000_0000_0000_0000) as nat, 2)
    } else if -0x8000_0000 <= i <= -32769 {
        seq![0xd2u8] + be_bytes((i + 0x1_0000_0000_0000_0000) as nat, 4)
    } else {
        seq![0xd3u8] + be_bytes((i + 0x1_0000_0000_0000_0000) as nat, 8)
    }
}

/// Header for a string of `len` UTF-8 bytes.
pub open spec fn enc_str_header(len: nat) -> Seq<u8> {
    if len <= 31 {
        seq![(0xa0 + len) as u8]
    } else if len <= 255 {
        seq![0xd9u8, len as u8]
    } else if len <= 65535 {
        seq![0xdau8] + be_bytes(len, 2)
    } else {
        seq![0xdbu8] + be_bytes(len, 4)
    }
}

/// Header for a binary blob of `len` bytes.
pub open spec fn enc_bin_header(len: nat) -> Seq<u8> {
    if len <= 255 {
        seq![0xc4u8, len as u8]
    } else if len <= 65535 {
        seq![0xc5u8] + be_bytes(len, 2)
    } else {
        seq![0xc6u8] + be_bytes(len, 4)
    }
}

/// Header for an array of `len` elements.
pub open spec fn enc_array_header(len: nat) -> Seq<u8> {
    if len <= 15 {
        seq![(0x90 + len) as u8]
    } else if len <= 65535 {
        seq![0xdcu8] + be_bytes(len, 2)
    } else {
        seq![0xddu8] + be_bytes(len, 4)
    }
}

/// Header for a map of `len` entries.
pub open spec fn enc_map_header(len: nat) -> Seq<u8> {
    if len <= 15 {
        seq![(0x80 + len) as u8]
    } else if len <= 65535 {
        seq![0xdeu8] + be_bytes(len, 2)
    } else {
        seq![0xdfu8] + be_bytes(len, 4)
    }
}

/// The encoding of a string: header, then its UTF-8 bytes.
pub open spec fn enc_str(s: Seq<char>) -> Seq<u8> {
    enc_str_header(encode_utf8(s).len()) + encode_utf8(s)
}

/// The byte encoding of one value.
pub open spec fn enc_value(v: ValueV) -> Seq<u8>
    decreases v,
{
    match v {
        ValueV::Nil => seq![0xc0u8],
        ValueV::Bool(b) => seq![if b { 0xc3u8 } else { 0xc2u8 }],
        ValueV::Int(i) => enc_int(i),
        ValueV::Str(s) => enc_str(s),
        ValueV::Bin(b) => enc_bin_header(b.len()) + b,
        ValueV::Arr(a) => enc_array_header(a.len()) + enc_seq(a),
        ValueV::Dict(m) => enc_map_header(m.len()) + enc_pairs(m),
    }
}

/// The concatenated encodings of a sequence of values.
pub open spec fn enc_seq(a: Seq<ValueV>) -> Seq<u8>
    decreases a,
{
    if a.len() == 0 {
        Seq::empty()
    } else {
        enc_value(a.first()) + enc_seq(a.drop_first())
    }
}

/// The concatenated encodings of a sequence of map entries: each key as a
/// string, then its value.
pub open spec fn enc_pairs(m: Seq<(Seq<char>, ValueV)>) -> Seq<u8>
    decreases m,
{
    if m.len() == 0 {
        Seq::empty()
    } else {
        enc_str(m.first().0) + enc_value(m.first().1) + enc_pairs(m.drop_first())
    }
}

pub proof fn lemma_enc_seq_push(a: Seq<ValueV>, x: ValueV)
    ensures
        enc_seq(a.push(x)) == enc_seq(a) + enc_value(x),
    decreases a,
{
    let b = a.push(x);
    if a.len() == 0 {
        assert(b.first() == x);
        assert(b.drop_first() =~= Seq::<ValueV>::empty());
        assert(enc_seq(b) == enc_value(x) + enc_seq(Seq::<ValueV>::empty()));
        assert(enc_seq(Seq::<ValueV>::empty()) == Seq::<u8>::empty());
        assert(enc_seq(b) =~= enc_seq(a) + enc_value(x));
    } else {
        assert(b.first() == a.first());
        assert(b.drop_first() =~= a.drop_first().push(x));
        lemma_enc_seq_push(a.drop_first(), x);
        assert(enc_seq(b) == enc_value(a.first()) + enc_seq(a.drop_first().push(x)));
        assert(enc_seq(b) =~= enc_seq(a) + enc_value(x));
    }
}

pub proof fn lemma_enc_pairs_push(m: Seq<(Seq<char>, ValueV)>, k: Seq<char>, x: ValueV)
    ensures
        enc_pairs(m.push((k, x))) == enc_pairs(m) + (enc_str(k) + enc_value(x)),
    decreases m,
{
    let b = m.push((k, x));
    if m.len() == 0 {
        assert(b.first() == (k, x));
        assert(b.drop_first() =~= Seq::<(Seq<char>, ValueV)>::empty());
        assert(enc_pairs(b) == enc_str(k) + enc_value(x) + enc_pairs(
            Seq::<(Seq<char>, ValueV)>::empty(),
        ));
        assert(enc_pairs(Seq::<(Seq<char>, ValueV)>::empty()) == Seq::<u8>::empty());
        assert(enc_pairs(b) =~= enc_pairs(m) + (enc_str(k) + enc_value(x)));
    } else {
        assert(b.first() == m.first());
        assert(b.drop_first() =~= m.drop_first().push((k, x)));
        lemma_enc_pairs_push(m.drop_first(), k, x);
        assert(enc_pairs(b) == enc_str(m.first().0) + enc_value(m.first().1) + enc_pairs(
            m.drop_first().push((k, x)),
        ));
        assert(enc_pairs(b) =~= enc_pairs(m) + (enc_str(k) + enc_value(x)));
    }
}

/// The unsigned value of the `n` bytes at `pos`, big-endian.
pub open spec fn be_val(b: Seq<u8>, pos: int, n: nat) -> nat
    decreases n,
{
    if n == 0 {
        0
    } else {
        be_val(b, pos, (n - 1) as nat) * 256 + b[pos + n - 1] as nat
    }
}

pub proof fn lemma_be_val_bound(b: Seq<u8>, pos: int, n: nat)
    ensures
        be_val(b, pos, n) < pow256(n),
    decreases n,
{
    if n > 0 {
        lemma_be_val_bound(b, pos, (n - 1) as nat);
    }
}

pub proof fn lemma_pow256_vals()
    ensures
        pow256(1) == 0x100,
        pow256(2) == 0x1_0000,
        pow256(4) == 0x1_0000_0000,
        pow256(7) == 0x100_0000_0000_0000,
        pow256(8) == 0x1_0000_0000_0000_0000,
{
    reveal_with_fuel(pow256, 9);
}

/// The signed reading of an unsigned `n`-byte value `u`: two's complement
/// over the modulus `m`.
pub open spec fn signed_of(u: nat, m: nat) -> int {
    if 2 * u >= m {
        u - m
    } else {
        u as int
    }
}

/// Decodes one value starting at `pos`; `None` where the bytes are not a
/// well-formed encoding in the protocol's subset. On success the second
/// component is the position one past the value.
pub open spec fn dec_value(b: Seq<u8>, pos: int) -> Option<(ValueV, int)>
    decreases b.len() - pos, 0nat,
{
    if pos < 0 || pos >= b.len() {
        None
    } else {
        let h = b[pos];
        if h < 0x80 {
            Some((ValueV::Int(h as int), pos + 1))
        } else if h < 0x90 {
            match dec_pairs(b, pos + 1, (h - 0x80) as nat) {
                Some((es, p)) => Some((ValueV::Dict(es), p)),
                None => None,
            }
        } else if h < 0xa0 {
            match dec_elems(b, pos + 1, (h - 0x90) as nat) {
                Some((es, p)) => Some((ValueV::Arr(es), p)),
                None => None,
            }
        } else if h < 0xc0 {
            dec_str_data(b, pos + 1, (h - 0xa0) as nat)
        } else if h == 0xc0 {
            Some((ValueV::Nil, pos + 1))
        } else if h == 0xc2 {
            Some((ValueV::Bool(false), pos + 1))
        } else if h == 0xc3 {
            Some((ValueV::Bool(true), pos + 1))
        } else if h == 0xc4 {
            if pos + 2 <= b.len() {
                dec_bin_data(b, pos + 2, b[pos + 1] as nat)
            } else {
                None
            }
        } else if h == 0xc5 {
            if pos + 3 <= b.len() {
                dec_bin_data(b, pos + 3, be_val(b, pos + 1, 2))
            } else {
                None
            }
        } else if h == 0xc6 {
            if pos + 5 <= b.len() {
                dec_bin_data(b, pos + 5, be_val(b, pos + 1, 4))
            } else {
                None
            }
        } else if h == 0xcc {
            if pos + 2 <= b.len() {
                Some((ValueV::Int(b[pos + 1] as int), pos + 2))
            } else {
                None
            }
        } else if h == 0xcd {
            if pos + 3 <= b.len() {
                Some((ValueV::Int(be_val(b, pos + 1, 2) as int), pos + 3))
            } else {
                None
            }
        } else if h == 0xce {
            if pos + 5 <= b.len() {
                Some((ValueV::Int(be_val(b, pos + 1, 4) as int), pos + 5))
            } else {
                None
            }
        } else if h == 0xcf {
            if pos + 9 <= b.len() && be_val(b, pos + 1, 8) <= i64::MAX {
                Some((ValueV::Int(be_val(b, pos + 1, 8) as int), pos + 9))
            } else {
                None
            }
        } else if h == 0xd0 {
            if pos + 2 <= b.len() {
                Some((ValueV::Int(signed_of(b[pos + 1] as nat, 0x100)), pos + 2))
            } else {
                None
            }
        } else if h == 0xd1 {
            if pos + 3 <= b.len() {
                Some((ValueV::Int(signed_of(be_val(b, pos + 1, 2), 0x1_0000)), pos + 3))
            } else {
                None
            }
        } else if h == 0xd2 {
            if pos + 5 <= b.len() {
                Some((ValueV::Int(signed_of(be_val(b, pos + 1, 4), 0x1_0000_0000)), pos + 5))
            } else {
                None
            }
        } else if h == 0xd3 {
            if pos + 9 <= b.len() {
                Some(
                    (
                        ValueV::Int(signed_of(be_val(b, pos + 1, 8), 0x1_0000_0000_0000_0000)),
                        pos + 9,
                    ),
                )
            } else {
                None
            }
        } else if h == 0xd9 {
            if pos + 2 <= b.len() {
                dec_str_data(b, pos + 2, b[pos + 1] as nat)
            } else {
                None
            }
        } else if h == 0xda {
            if pos + 3 <= b.len() {
                dec_str_data(b, pos + 3, be_val(b, pos + 1, 2))
            } else {
                None
            }
        } else if h == 0xdb {
            if pos + 5 <= b.len() {
                dec_str_data(b, pos + 5, be_val(b, pos + 1, 4))
            } else {
                None
            }
        } else if h == 0xdc {
            if pos + 3 <= b.len() {
                match dec_elems(b, pos + 3, be_val(b, pos + 1, 2)) {
                    Some((es, p)) => Some((ValueV::Arr(es), p)),
                    None => None,
                }
            } else {
                None
            }
        } else if h == 0xdd {
            if pos + 5 <= b.len() {
                match dec_elems(b, pos + 5, be_val(b, pos + 1, 4)) {
                    Some((es, p)) => Some((ValueV::Arr(es), p)),
                    None => None,
                }
            } else {
                None
            }
        } else if h == 0xde {
            if pos + 3 <= b.len() {
                match dec_pairs(b, pos + 3, be_val(b, pos + 1, 2)) {
                    Some((es, p)) => Some((ValueV::Dict(es), p)),
                    None => None,
                }
            } else {
                None
            }
        } else if h == 0xdf {
            if pos + 5 <= b.len() {
                match dec_pairs(b, pos + 5, be_val(b, pos + 1, 4)) {
                    Some((es, p)) => Some((ValueV::Dict(es), p)),
                    None => None,
                }
            } else {
                None
            }
        } else if h >= 0xe0 {
            Some((ValueV::Int(h - 0x100), pos + 1))
        } else {
            None
        }
    }
}

/// The body of a string of `len` bytes starting at `start`: the bytes must
/// be present and valid UTF-8.
pub open spec fn dec_str_data(b: Seq<u8>, start: int, len: nat) -> Option<(ValueV, int)> {
    if start + len <= b.len() {
        let bs = b.subrange(start, start + len);
        if valid_utf8(bs) {
            Some((ValueV::Str(decode_utf8(bs)), start + len))
        } else {
            None
        }
    } else {
        None
    }
}

/// The body of a binary blob of `len` bytes starting at `start`.
pub open spec fn dec_bin_data(b: Seq<u8>, start: int, len: nat) -> Option<(ValueV, int)> {
    if start + len <= b.len() {
        Some((ValueV::Bin(b.subrange(start, start + len)), start + len))
    } else {
        None
    }
}

/// Decodes `n` consecutive values starting at `pos`.
pub open spec fn dec_elems(b: Seq<u8>, pos: int, n: nat) -> Option<(Seq<ValueV>, int)>
    decreases b.len() - pos, n,
{
    if pos < 0 || pos > b.len() {
        None
    } else if n == 0 {
        Some((Seq::empty(), pos))
    } else {
        match dec_value(b, pos) {
            Some((v, p1)) => if pos < p1 <= b.len() {
                match dec_elems(b, p1, (n - 1) as nat) {
                    Some((rest, p2)) => Some((seq![v] + rest, p2)),
                    None => None,
                }
            } else {
                None
            },
            None => None,
        }
    }
}

/// Decodes `n` consecutive key-value pairs starting at `pos`; every key
/// must be a string.
pub open spec fn dec_pairs(b: Seq<u8>, pos: int, n: nat) -> Option<
    (Seq<(Seq<char>, ValueV)>, int),
>
    decreases b.len() - pos, n,
{
    if pos < 0 || pos > b.len() {
        None
    } else if n == 0 {
        Some((Seq::empty(), pos))
    } else {
        match dec_value(b, pos) {
            Some((k, p1)) => match k {
                ValueV::Str(ks) => if pos < p1 <= b.len() {
                    match dec_value(b, p1) {
                        Some((v, p2)) => if p1 < p2 <= b.len() {
                            match dec_pairs(b, p2, (n - 1) as nat) {
                                Some((rest, p3)) => Some((seq![(ks, v)] + rest, p3)),
                                None => None,
                            }
                        } else {
                            None
                        },
                        None => None,
                    }
                } else {
                    None
                },
                _ => None,
            },
            None => None,
        }
    }
}

pub proof fn lemma_pow256_pos(n: nat)
    ensures
        pow256(n) >= 1,
    decreases n,
{
    if n > 0 {
        lemma_pow256_pos((n - 1) as nat);
    }
}

pub proof fn lemma_be_bytes_len(v: nat, n: nat)
    ensures
        be_bytes(v, n).len() == n,
    decreases n,
{
    if n > 0 {
        lemma_be_bytes_len(v / 256, (n - 1) as nat);
    }
}

/// Reading back `n` big-endian bytes of `v` gives `v` modulo 256^n.
pub proof fn lemma_be_val_of_be_bytes(b: Seq<u8>, pos: int, v: nat, n: nat)
    requires
        0 <= pos,
        pos + n <= b.len(),
        b.subrange(pos, pos + n) == be_bytes(v, n),
    ensures
        be_val(b, pos, n) == v % pow256(n),
    decreases n,
{
    lemma_be_bytes_len(v, n);
    if n == 0 {
        assert(v % 1 == 0) by {
            vstd::arithmetic::div_mod::lemma_small_mod(0, 1);
            vstd::arithmetic::div_mod::lemma_mod_self_0(1);
            assert(v % 1 == 0) by (nonlinear_arith);
        }
    } else {
        lemma_be_bytes_len(v / 256, (n - 1) as nat);
        assert forall|j: int| 0 <= j < n implies b[pos + j] == be_bytes(v, n)[j] by {
            assert(b.subrange(pos, pos + n)[j] == b[pos + j]);
        }
        assert(b.subrange(pos, pos + n - 1) =~= be_bytes(v / 256, (n - 1) as nat));
        lemma_be_val_of_be_bytes(b, pos, v / 256, (n - 1) as nat);
        lemma_pow256_pos((n - 1) as nat);
        assert(be_bytes(v, n) == be_bytes(v / 256, (n - 1) as nat).push((v % 256) as u8));
        assert(be_bytes(v, n)[n - 1] == (v % 256) as u8);
        assert(b[pos + n - 1] == (v % 256) as u8);
        assert(be_val(b, pos, n) == ((v / 256) % pow256((n - 1) as nat)) * 256 + (v % 256));
        vstd::arithmetic::div_mod::lemma_mod_breakdown(
            v as int,
            256,
            pow256((n - 1) as nat) as int,
        );
        assert(pow256(n) == 256 * pow256((n - 1) as nat));
    }
}

/// Every encoded value starts with at least a header byte.
pub proof fn lemma_enc_value_nonempty(v: ValueV)
    ensures
        enc_value(v).len() >= 1,
{
    match v {
        ValueV::Nil => {},
        ValueV::Bool(_) => {},
        ValueV::Int(i) => {},
        ValueV::Str(s) => {},
        ValueV::Bin(b) => {},
        ValueV::Arr(a) => {},
        ValueV::Dict(m) => {},
    }
}

/// Decoding an encoded integer yields it back.
proof fn lemma_dec_enc_int(b: Seq<u8>, pos: int, i: int)
    requires
        i64::MIN <= i <= i64::MAX,
        0 <= pos,
        pos + enc_int(i).len() <= b.len(),
        b.subrange(pos, pos + enc_int(i).len()) == enc_int(i),
    ensures
        dec_value(b, pos) == Some((ValueV::Int(i), pos + enc_int(i).len())),
{
    let e = enc_int(i);
    lemma_pow256_vals();
    assert forall|j: int| pos <= j < pos + e.len() implies b[j] == e[j - pos] by {
        assert(b.subrange(pos, pos + e.len())[j - pos] == b[j]);
    }
    if 0 <= i <= 127 {
    } else if 128 <= i <= 255 {
    } else if 256 <= i <= 65535 {
        lemma_be_bytes_len(i as nat, 2);
        assert(b.subrange(pos + 1, pos + 3) =~= be_bytes(i as nat, 2));
        lemma_be_val_of_be_bytes(b, pos + 1, i as nat, 2);
        vstd::arithmetic::div_mod::lemma_small_mod(i as nat, pow256(2));
    } else if 65536 <= i <= 0xFFFF_FFFF {
        lemma_be_bytes_len(i as nat, 4);
        assert(b.subrange(pos + 1, pos + 5) =~= be_bytes(i as nat, 4));
        lemma_be_val_of_be_bytes(b, pos + 1, i as nat, 4);
        vstd::arithmetic::div_mod::lemma_small_mod(i as nat, pow256(4));
    } else if i > 0xFFFF_FFFF {
        lemma_be_bytes_len(i as nat, 8);
        assert(b.subrange(pos + 1, pos + 9) =~= be_bytes(i as nat, 8));
        lemma_be_val_of_be_bytes(b, pos + 1, i as nat, 8);
        vstd::arithmetic::div_mod::lemma_small_mod(i as nat, pow256(8));
    } else if -32 <= i <= -1 {
        assert(b[pos] == (i + 256) as u8);
        assert(b[pos] >= 0xe0);
    } else if -128 <= i <= -33 {
        assert(signed_of(b[pos + 1] as nat, 0x100) == i);
    } else if -32768 <= i <= -129 {
        let u = (i + 0x1_0000_0000_0000_0000) as nat;
        lemma_be_bytes_len(u, 2);
        assert(b.subrange(pos + 1, pos + 3) =~= be_bytes(u, 2));
        lemma_be_val_of_be_bytes(b, pos + 1, u, 2);
        vstd::arithmetic::div_mod::lemma_mod_multiples_vanish(
            0xFFFF_FFFF_FFFF,
            i + 0x1_0000,
            0x1_0000,
        );
        vstd::arithmetic::div_mod::lemma_small_mod((i + 0x1_0000) as nat, 0x1_0000);
        assert(be_val(b, pos + 1, 2) == i + 0x1_0000);
        assert(signed_of(be_val(b, pos + 1, 2), 0x1_0000) == i);
    } else if -0x8000_0000 <= i <= -32769 {
        let u = (i + 0x1_0000_0000_0000_0000) as nat;
        lemma_be_bytes_len(u, 4);
        assert(b.subrange(pos + 1, pos + 5) =~= be_bytes(u, 4));
        lemma_be_val_of_be_bytes(b, pos + 1, u, 4);
        vstd::arithmetic::div_mod::lemma_mod_multiples_vanish(
            0xFFFF_FFFF,
            i + 0x1_0000_0000,
            0x1_0000_0000,
        );
        vstd::arithmetic::div_mod::lemma_small_mod((i + 0x1_0000_0000) as nat, 0x1_0000_0000);
        assert(be_val(b, pos + 1, 4) == i + 0x1_0000_0000);
        assert(signed_of(be_val(b, pos + 1, 4), 0x1_0000_0000) == i);
    } else {
        let u = (i + 0x1_0000_0000_0000_0000) as nat;
        lemma_be_bytes_len(u, 8);
        assert(b.subrange(pos + 1, pos + 9) =~= be_bytes(u, 8));
        lemma_be_val_of_be_bytes(b, pos + 1, u, 8);
        vstd::arithmetic::div_mod::lemma_small_mod(u, pow256(8));
        assert(be_val(b, pos + 1, 8) == i + 0x1_0000_0000_0000_0000);
        assert(signed_of(be_val(b, pos + 1, 8), 0x1_0000_0000_0000_0000) == i);
    }
}

/// Decoding an encoded string yields it back.
proof fn lemma_dec_enc_str(b: Seq<u8>, pos: int, s: Seq<char>)
    requires
        encode_utf8(s).len() < 0x1_0000_0000,
        0 <= pos,
        pos + enc_str(s).len() <= b.len(),
        b.subrange(pos, pos + enc_str(s).len()) == enc_str(s),
    ensures
        dec_value(b, pos) == Some((ValueV::Str(s), pos + enc_str(s).len())),
{
    let e = enc_str(s);
    let data = encode_utf8(s);
    let n = data.len() as int;
    let hl = enc_str_header(data.len()).len();
    lemma_pow256_vals();
    assert forall|j: int| pos <= j < pos + e.len() implies b[j] == e[j - pos] by {
        assert(b.subrange(pos, pos + e.len())[j - pos] == b[j]);
    }
    vstd::utf8::encode_utf8_valid_utf8(s);
    vstd::utf8::encode_utf8_decode_utf8(s);
    if n <= 31 {
        assert(b[pos] == (0xa0 + n) as u8);
        assert(0xa0 <= b[pos] < 0xc0);
        assert(b.subrange(pos + 1, pos + 1 + n) =~= data);
        assert(dec_str_data(b, pos + 1, (b[pos] - 0xa0) as nat) == Some(
            (ValueV::Str(s), pos + 1 + n),
        ));
    } else if n <= 255 {
        assert(b[pos] == 0xd9);
        assert(b[pos + 1] == n as u8);
        assert(b.subrange(pos + 2, pos + 2 + n) =~= data);
    } else if n <= 65535 {
        assert(b[pos] == 0xda);
        lemma_be_bytes_len(data.len(), 2);
        assert(b.subrange(pos + 1, pos + 3) =~= be_bytes(data.len(), 2));
        lemma_be_val_of_be_bytes(b, pos + 1, data.len(), 2);
        vstd::arithmetic::div_mod::lemma_small_mod(data.len(), pow256(2));
        assert(b.subrange(pos + 3, pos + 3 + n) =~= data);
    } else {
        assert(b[pos] == 0xdb);
        lemma_be_bytes_len(data.len(), 4);
        assert(b.subrange(pos + 1, pos + 5) =~= be_bytes(data.len(), 4));
        lemma_be_val_of_be_bytes(b, pos + 1, data.len(), 4);
        vstd::arithmetic::div_mod::lemma_small_mod(data.len(), pow256(4));
        assert(b.subrange(pos + 5, pos + 5 + n) =~= data);
    }
}

/// Decoding an encoded binary blob yields it back.
proof fn lemma_dec_enc_bin(b: Seq<u8>, pos: int, data: Seq<u8>)
    requires
        data.len() < 0x1_0000_0000,
        0 <= pos,
        pos + enc_bin_header(data.len()).len() + data.len() <= b.len(),
        b.subrange(pos, pos + enc_bin_header(data.len()).len() + data.len()) == enc_bin_header(
            data.len(),
        ) + data,
    ensures
        dec_value(b, pos) == Some(
            (ValueV::Bin(data), pos + enc_bin_header(data.len()).len() + data.len()),
        ),
{
    let e = enc_bin_header(data.len()) + data;
    let n = data.len() as int;
    lemma_pow256_vals();
    assert forall|j: int| pos <= j < pos + e.len() implies b[j] == e[j - pos] by {
        assert(b.subrange(pos, pos + e.len())[j - pos] == b[j]);
    }
    if n <= 255 {
        assert(b[pos] == 0xc4);
        assert(b[pos + 1] == n as u8);
        assert(b.subrange(pos + 2, pos + 2 + n) =~= data);
    } else if n <= 65535 {
        assert(b[pos] == 0xc5);
        lemma_be_bytes_len(data.len(), 2);
        assert(b.subrange(pos + 1, pos + 3) =~= be_bytes(data.len(), 2));
        lemma_be_val_of_be_bytes(b, pos + 1, data.len(), 2);
        vstd::arithmetic::div_mod::lemma_small_mod(data.len(), pow256(2));
        assert(b.subrange(pos + 3, pos + 3 + n) =~= data);
    } else {
        assert(b[pos] == 0xc6);
        lemma_be_bytes_len(data.len(), 4);
        assert(b.subrange(pos + 1, pos + 5) =~= be_bytes(data.len(), 4));
        lemma_be_val_of_be_bytes(b, pos + 1, data.len(), 4);
        vstd::arithmetic::div_mod::lemma_small_mod(data.len(), pow256(4));
        assert(b.subrange(pos + 5, pos + 5 + n) =~= data);
    }
}

/// Round trip: decoding the encoding of any valid value, wherever it sits
/// in a larger buffer, yields exactly that value and consumes exactly its
/// encoding.
#[verifier::rlimit(60)]
#[verifier::spinoff_prover]
pub proof fn lemma_dec_enc(b: Seq<u8>, pos: int, v: ValueV)
    requires
        valid(v),
        0 <= pos,
        pos + enc_value(v).len() <= b.len(),
        b.subrange(pos, pos + enc_value(v).len()) == enc_value(v),
    ensures
        dec_value(b, pos) == Some((v, pos + enc_value(v).len())),
    decreases v,
{
    let e = enc_value(v);
    lemma_pow256_vals();
    assert forall|j: int| pos <= j < pos + e.len() implies b[j] == e[j - pos] by {
        assert(b.subrange(pos, pos + e.len())[j - pos] == b[j]);
    }
    match v {
        ValueV::Nil => {},
        ValueV::Bool(_) => {},
        ValueV::Int(i) => {
            lemma_dec_enc_int(b, pos, i);
        },
        ValueV::Str(s) => {
            lemma_dec_enc_str(b, pos, s);
        },
        ValueV::Bin(data) => {
            lemma_dec_enc_bin(b, pos, data);
        },
        ValueV::Arr(a) => {
            let hl = enc_array_header(a.len()).len() as int;
            let n = a.len() as int;
            if n <= 15 {
                assert(b[pos] == (0x90 + n) as u8);
                assert(0x90 <= b[pos] < 0xa0);
            } else if n <= 65535 {
                assert(b[pos] == 0xdc);
                lemma_be_bytes_len(a.len(), 2);
                assert(b.subrange(pos + 1, pos + 3) =~= be_bytes(a.len(), 2));
                lemma_be_val_of_be_bytes(b, pos + 1, a.len(), 2);
                vstd::arithmetic::div_mod::lemma_small_mod(a.len(), pow256(2));
            } else {
                assert(b[pos] == 0xdd);
                lemma_be_bytes_len(a.len(), 4);
                assert(b.subrange(pos + 1, pos + 5) =~= be_bytes(a.len(), 4));
                lemma_be_val_of_be_bytes(b, pos + 1, a.len(), 4);
                vstd::arithmetic::div_mod::lemma_small_mod(a.len(), pow256(4));
            }
            assert(b.subrange(pos + hl, pos + hl + enc_seq(a).len() as int) =~= enc_seq(a));
            lemma_dec_enc_elems(b, pos + hl, a);
        },
        ValueV::Dict(m) => {
            let hl = enc_map_header(m.len()).len() as int;
            let n = m.len() as int;
            if n <= 15 {
                assert(b[pos] == (0x80 + n) as u8);
                assert(0x80 <= b[pos] < 0x90);
            } else if n <= 65535 {
                assert(b[pos] == 0xde);
                lemma_be_bytes_len(m.len(), 2);
                assert(b.subrange(pos + 1, pos + 3) =~= be_bytes(m.len(), 2));
                lemma_be_val_of_be_bytes(b, pos + 1, m.len(), 2);
                vstd::arithmetic::div_mod::lemma_small_mod(m.len(), pow256(2));
            } else {
                assert(b[pos] == 0xdf);
                lemma_be_bytes_len(m.len(), 4);
                assert(b.subrange(pos + 1, pos + 5) =~= be_bytes(m.len(), 4));
                lemma_be_val_of_be_bytes(b, pos + 1, m.len(), 4);
                vstd::arithmetic::div_mod::lemma_small_mod(m.len(), pow256(4));
            }
            assert(b.subrange(pos + hl, pos + hl + enc_pairs(m).len() as int) =~= enc_pairs(m));
            lemma_dec_enc_pairs(b, pos + hl, m);
        },
    }
}

/// Round trip for a run of consecutive encoded values.
pub proof fn lemma_dec_enc_elems(b: Seq<u8>, pos: int, a: Seq<ValueV>)
    requires
        forall|i: int| 0 <= i < a.len() ==> valid(#[trigger] a[i]),
        0 <= pos,
        pos + enc_seq(a).len() <= b.len(),
        b.subrange(pos, pos + enc_seq(a).len()) == enc_seq(a),
    ensures
        dec_elems(b, pos, a.len()) == Some((a, pos + enc_seq(a).len())),
    decreases a,
{
    if a.len() == 0 {
        assert(dec_elems(b, pos, 0) == Some((Seq::<ValueV>::empty(), pos)));
        assert(a =~= Seq::<ValueV>::empty());
    } else {
        let v0 = a.first();
        let e0 = enc_value(v0);
        let rest = a.drop_first();
        let el = enc_seq(a).len() as int;
        assert(valid(v0));
        assert(enc_seq(a) == e0 + enc_seq(rest));
        assert forall|j: int| pos <= j < pos + el implies b[j] == enc_seq(a)[j - pos] by {
            assert(b.subrange(pos, pos + el)[j - pos] == b[j]);
        }
        assert(b.subrange(pos, pos + e0.len() as int) =~= e0);
        lemma_dec_enc(b, pos, v0);
        lemma_enc_value_nonempty(v0);
        assert(b.subrange(pos + e0.len(), pos + el) =~= enc_seq(rest));
        assert(forall|i: int| 0 <= i < rest.len() ==> valid(#[trigger] rest[i]));
        lemma_dec_enc_elems(b, pos + e0.len() as int, rest);
        assert(seq![v0] + rest =~= a);
    }
}

/// Round trip for a run of consecutive encoded key-value pairs.
#[verifier::rlimit(60)]
#[verifier::spinoff_prover]
pub proof fn lemma_dec_enc_pairs(b: Seq<u8>, pos: int, m: Seq<(Seq<char>, ValueV)>)
    requires
        forall|i: int|
            0 <= i < m.len() ==> encode_utf8((#[trigger] m[i]).0).len() < 0x1_0000_0000 && valid(
                m[i].1,
            ),
        0 <= pos,
        pos + enc_pairs(m).len() <= b.len(),
        b.subrange(pos, pos + enc_pairs(m).len()) == enc_pairs(m),
    ensures
        dec_pairs(b, pos, m.len()) == Some((m, pos + enc_pairs(m).len())),
    decreases m,
{
    if m.len() == 0 {
        assert(dec_pairs(b, pos, 0) == Some((Seq::<(Seq<char>, ValueV)>::empty(), pos)));
        assert(m =~= Seq::<(Seq<char>, ValueV)>::empty());
    } else {
        let k0 = m.first().0;
        let v0 = m.first().1;
        let ek = enc_str(k0);
        let ev = enc_value(v0);
        let rest = m.drop_first();
        let el = enc_pairs(m).len() as int;
        assert(valid(v0));
        assert(encode_utf8(k0).len() < 0x1_0000_0000);
        assert(enc_pairs(m) == ek + ev + enc_pairs(rest));
        assert forall|j: int| pos <= j < pos + el implies b[j] == enc_pairs(m)[j - pos] by {
            assert(b.subrange(pos, pos + el)[j - pos] == b[j]);
        }
        assert(b.subrange(pos, pos + ek.len() as int) =~= ek);
        lemma_dec_enc_str(b, pos, k0);
        let p1 = pos + ek.len() as int;
        assert(b.subrange(p1, p1 + ev.len() as int) =~= ev);
        lemma_dec_enc(b, pos + ek.len() as int, v0);
        lemma_enc_value_nonempty(v0);
        let p2 = p1 + ev.len() as int;
        assert(b.subrange(p2, pos + el) =~= enc_pairs(rest));
        assert(forall|i: int|
            0 <= i < rest.len() ==> encode_utf8((#[trigger] rest[i]).0).len() < 0x1_0000_0000
                && valid(rest[i].1));
        lemma_dec_enc_pairs(b, p2, rest);
        assert(seq![(k0, v0)] + rest =~= m);
    }
}

/// Appends the low `n` bytes of `v`, big-endian.
fn write_be(buf: &mut Vec<u8>, v: u64, n: usize)
    requires
        n <= 8,
    ensures
        final(buf)@ == old(buf)@ + be_bytes(v as nat, n as nat),
    decreases n,
{
    if n > 0 {
        write_be(buf, v / 256, n - 1);
        buf.push((v % 256) as u8);
        assert(buf@ =~= old(buf)@ + be_bytes(v as nat, n as nat));
    } else {
        assert(buf@ =~= old(buf)@ + be_bytes(v as nat, 0));
    }
}

/// Appends the most compact encoding of `v`.
pub fn write_int(buf: &mut Vec<u8>, v: i64)
    ensures
        final(buf)@ == old(buf)@ + enc_int(v as int),
{
    if v >= 0 {
        let u = v as u64;
        if u <= 127 {
            buf.push(u as u8);
        } else if u <= 255 {
            buf.push(0xcc);
            buf.push(u as u8);
        } else if u <= 65535 {
            buf.push(0xcd);
            write_be(buf, u, 2);
        } else if u <= 0xFFFF_FFFF {
            buf.push(0xce);
            write_be(buf, u, 4);
        } else {
            buf.push(0xcf);
            write_be(buf, u, 8);
        }
    } else {
        // The 64-bit two's complement of v, computed without overflow.
        let u = u64::MAX - ((-(v + 1)) as u64);
        assert(u == v + 0x1_0000_0000_0000_0000);
        if v >= -32 {
            buf.push((v + 256) as u8);
        } else if v >= -128 {
            buf.push(0xd0);
            buf.push((v + 256) as u8);
        } else if v >= -32768 {
            buf.push(0xd1);
            write_be(buf, u, 2);
        } else if v >= -0x8000_0000 {
            buf.push(0xd2);
            write_be(buf, u, 4);
        } else {
            buf.push(0xd3);
            write_be(buf, u, 8);
        }
    }
    assert(buf@ =~= old(buf)@ + enc_int(v as int));
}

/// Appends a string header for `len` bytes of UTF-8.
fn write_str_header(buf: &mut Vec<u8>, len: usize)
    requires
        len < 0x1_0000_0000,
    ensures
        final(buf)@ == old(buf)@ + enc_str_header(len as nat),
{
    let l = len as u64;
    if l <= 31 {
        buf.push(0xa0 + (l as u8));
    } else if l <= 255 {
        buf.push(0xd9);
        buf.push(l as u8);
    } else if l <= 65535 {
        buf.push(0xda);
        write_be(buf, l, 2);
    } else {
        buf.push(0xdb);
        write_be(buf, l, 4);
    }
    assert(buf@ =~= old(buf)@ + enc_str_header(len as nat));
}

/// Appends a binary header for `len` bytes.
fn write_bin_header(buf: &mut Vec<u8>, len: usize)
    requires
        len < 0x1_0000_0000,
    ensures
        final(buf)@ == old(buf)@ + enc_bin_header(len as nat),
{
    let l = len as u64;
    if l <= 255 {
        buf.push(0xc4);
        buf.push(l as u8);
    } else if l <= 65535 {
        buf.push(0xc5);
        write_be(buf, l, 2);
    } else {
        buf.push(0xc6);
        write_be(buf, l, 4);
    }
    assert(buf@ =~= old(buf)@ + enc_bin_header(len as nat));
}

/// Appends an array header for `len` elements.
fn write_array_header(buf: &mut Vec<u8>, len: usize)
    requires
        len < 0x1_0000_0000,
    ensures
        final(buf)@ == old(buf)@ + enc_array_header(len as nat),
{
    let l = len as u64;
    if l <= 15 {
        buf.push(0x90 + (l as u8));
    } else if l <= 65535 {
        buf.push(0xdc);
        write_be(buf, l, 2);
    } else {
        buf.push(0xdd);
        write_be(buf, l, 4);
    }
    assert(buf@ =~= old(buf)@ + enc_array_header(len as nat));
}

/// Appends a map header for `len` entries.
fn write_map_header(buf: &mut Vec<u8>, len: usize)
    requires
        len < 0x1_0000_0000,
    ensures
        final(buf)@ == old(buf)@ + enc_map_header(len as nat),
{
    let l = len as u64;
    if l <= 15 {
        buf.push(0x80 + (l as u8));
    } else if l <= 65535 {
        buf.push(0xde);
        write_be(buf, l, 2);
    } else {
        buf.push(0xdf);
        write_be(buf, l, 4);
    }
    assert(buf@ =~= old(buf)@ + enc_map_header(len as nat));
}

/// Appends the encoding of the string `s`: header, then UTF-8 bytes.
fn write_string(buf: &mut Vec<u8>, s: &String)
    requires
        encode_utf8(s@).len() < 0x1_0000_0000,
    ensures
        final(buf)@ == old(buf)@ + enc_str(s@),
{
    let bytes: &[u8] = s.as_str().as_bytes();
    write_str_header(buf, bytes.len());
    buf.extend_from_slice(bytes);
    assert(buf@ =~= old(buf)@ + enc_str(s@));
}

/// Appends the encoding of the value `v`.
pub fn encode_value(v: &Value, buf: &mut Vec<u8>)
    requires
        valid(v@),
    ensures
        final(buf)@ == old(buf)@ + enc_value(v@),
    decreases v,
{
    match v {
        Value::Nil => {
            buf.push(0xc0);
            assert(buf@ =~= old(buf)@ + enc_value(v@));
        },
        Value::Bool(b) => {
            buf.push(if *b {
                0xc3
            } else {
                0xc2
            });
            assert(buf@ =~= old(buf)@ + enc_value(v@));
        },
        Value::Int(i) => {
            write_int(buf, *i);
        },
        Value::Str(s) => {
            write_string(buf, s);
        },
        Value::Bin(b) => {
            write_bin_header(buf, b.len());
            buf.extend_from_slice(b.as_slice());
            assert(buf@ =~= old(buf)@ + enc_value(v@));
        },
        Value::Arr(a) => {
            proof {
                lemma_seq_view(a@);
            }
            write_array_header(buf, a.len());
            let ghost base = buf@;
            let n = a.len();
            for i in 0..n
                invariant
                    *v == Value::Arr(*a),
                    v@ == ValueV::Arr(seq_view(a@)),
                    valid(v@),
                    n == a@.len(),
                    buf@ == base + enc_seq(seq_view(a@).take(i as int)),
            {
                proof {
                    lemma_seq_view(a@);
                    assert(valid(seq_view(a@)[i as int]));
                    assert(seq_view(a@)[i as int] == a@[i as int]@);
                    assert(decreases_to!(*v => *a));
                    assert(decreases_to!(*a => a@));
                    assert(decreases_to!(a@ => a@[i as int]));
                    assert(decreases_to!(*v => a@[i as int]));
                }
                encode_value(&a[i], buf);
                proof {
                    lemma_enc_seq_push(seq_view(a@).take(i as int), seq_view(a@)[i as int]);
                    assert(seq_view(a@).take(i + 1) =~= seq_view(a@).take(i as int).push(
                        seq_view(a@)[i as int],
                    ));
                    assert(buf@ =~= base + enc_seq(seq_view(a@).take(i + 1)));
                }
            }
            proof {
                lemma_seq_view(a@);
                assert(seq_view(a@).take(n as int) =~= seq_view(a@));
                assert(buf@ =~= old(buf)@ + enc_value(v@));
            }
        },
        Value::Dict(m) => {
            proof {
                lemma_pairs_view(m@);
            }
            write_map_header(buf, m.len());
            let ghost base = buf@;
            let n = m.len();
            for i in 0..n
                invariant
                    *v == Value::Dict(*m),
                    v@ == ValueV::Dict(pairs_view(m@)),
                    valid(v@),
                    n == m@.len(),
                    buf@ == base + enc_pairs(pairs_view(m@).take(i as int)),
            {
                proof {
                    lemma_pairs_view(m@);
                    assert(pairs_view(m@)[i as int] == (m@[i as int].0@, m@[i as int].1@));
                    assert(valid(pairs_view(m@)[i as int].1));
                    assert(encode_utf8(pairs_view(m@)[i as int].0).len() < 0x1_0000_0000);
                }
                proof {
                    assert(decreases_to!(*v => *m));
                    assert(decreases_to!(*m => m@));
                    assert(decreases_to!(m@ => m@[i as int]));
                    assert(decreases_to!(m@[i as int] => m@[i as int].1));
                    assert(decreases_to!(*v => m@[i as int].1));
                }
                write_string(buf, &m[i].0);
                encode_value(&m[i].1, buf);
                proof {
                    lemma_enc_pairs_push(
                        pairs_view(m@).take(i as int),
                        pairs_view(m@)[i as int].0,
                        pairs_view(m@)[i as int].1,
                    );
                    assert(pairs_view(m@).take(i + 1) =~= pairs_view(m@).take(i as int).push(
                        pairs_view(m@)[i as int],
                    ));
                    assert(buf@ =~= base + enc_pairs(pairs_view(m@).take(i + 1)));
                }
            }
            proof {
                lemma_pairs_view(m@);
                assert(pairs_view(m@).take(n as int) =~= pairs_view(m@));
                assert(buf@ =~= old(buf)@ + enc_value(v@));
            }
        },
    }
}

/// The encoding of `v` as a fresh buffer.
pub fn encode(v: &Value) -> (r: Vec<u8>)
    requires
        valid(v@),
    ensures
        r@ == enc_value(v@),
{
    let mut buf: Vec<u8> = Vec::new();
    encode_value(v, &mut buf);
    assert(buf@ =~= enc_value(v@));
    buf
}

pub proof fn lemma_pow256_mono(a: nat, c: nat)
    requires
        a <= c,
    ensures
        pow256(a) <= pow256(c),
    decreases c,
{
    if c > 0 && a < c {
        lemma_pow256_mono(a, (c - 1) as nat);
        lemma_pow256_pos((c - 1) as nat);
    }
}

/// Reads the `n` bytes at `pos` as a big-endian unsigned value.
fn read_be(b: &Vec<u8>, pos: usize, n: usize) -> (r: u64)
    requires
        n <= 8,
        pos + n <= b@.len(),
    ensures
        r as nat == be_val(b@, pos as int, n as nat),
    decreases n,
{
    if n == 0 {
        0
    } else {
        let l = b.len();
        let hi = read_be(b, pos, n - 1);
        proof {
            lemma_be_val_bound(b@, pos as int, (n - 1) as nat);
            lemma_pow256_mono((n - 1) as nat, 7);
            lemma_pow256_vals();
            assert(hi < 0x100_0000_0000_0000);
            assert(pos + n <= l);
        }
        hi * 256 + (b[pos + n - 1] as u64)
    }
}

/// Relies on `String::from_utf8`: it returns `Ok` exactly when the bytes
/// are valid UTF-8, and the returned string is made of those bytes.
#[verifier::external_body]
fn string_from_utf8(bytes: Vec<u8>) -> (r: Option<String>)
    ensures
        match r {
            Some(s) => valid_utf8(bytes@) && s@ == decode_utf8(bytes@),
            None => !valid_utf8(bytes@),
        },
{
    match String::from_utf8(bytes) {
        Ok(s) => Some(s),
        Err(_) => None,
    }
}

/// Reads the body of a string of `len` bytes starting at `start`.
fn decode_str_data(b: &Vec<u8>, start: usize, len: usize) -> (r: Option<(Value, usize)>)
    requires
        start <= b@.len(),
    ensures
        match r {
            Some((v, p)) => dec_str_data(b@, start as int, len as nat) == Some((v@, p as int))
                && start <= p <= b@.len(),
            None => dec_str_data(b@, start as int, len as nat) is None,
        },
{
    if len > b.len() - start {
        return None;
    }
    let end = start + len;
    let bytes = vstd::slice::slice_to_vec(vstd::slice::slice_subrange(b.as_slice(), start, end));
    match string_from_utf8(bytes) {
        Some(s) => Some((Value::Str(s), end)),
        None => None,
    }
}

/// Reads the body of a binary blob of `len` bytes starting at `start`.
fn decode_bin_data(b: &Vec<u8>, start: usize, len: usize) -> (r: Option<(Value, usize)>)
    requires
        start <= b@.len(),
    ensures
        match r {
            Some((v, p)) => dec_bin_data(b@, start as int, len as nat) == Some((v@, p as int))
                && start <= p <= b@.len(),
            None => dec_bin_data(b@, start as int, len as nat) is None,
        },
{
    if len > b.len() - start {
        return None;
    }
    let end = start + len;
    let bytes = vstd::slice::slice_to_vec(vstd::slice::slice_subrange(b.as_slice(), start, end));
    Some((Value::Bin(bytes), end))
}

/// Decodes the value starting at `pos`, as `dec_value` describes it.
pub fn decode_at(b: &Vec<u8>, pos: usize) -> (r: Option<(Value, usize)>)
    requires
        pos <= b@.len(),
    ensures
        match r {
            Some((v, p)) => dec_value(b@, pos as int) == Some((v@, p as int)) && pos < p
                <= b@.len(),
            None => dec_value(b@, pos as int) is None,
        },
    decreases b@.len() - pos, 0nat,
{
    if pos >= b.len() {
        return None;
    }
    let h = b[pos];
    proof {
        lemma_pow256_vals();
    }
    if h < 0x80 {
        Some((Value::Int(h as i64), pos + 1))
    } else if h < 0x90 {
        let n = (h - 0x80) as usize;
        match decode_pairs(b, pos + 1, n) {
            Some((es, p)) => Some((Value::Dict(es), p)),
            None => None,
        }
    } else if h < 0xa0 {
        let n = (h - 0x90) as usize;
        match decode_elems(b, pos + 1, n) {
            Some((es, p)) => Some((Value::Arr(es), p)),
            None => None,
        }
    } else if h < 0xc0 {
        decode_str_data(b, pos + 1, (h - 0xa0) as usize)
    } else if h == 0xc0 {
        Some((Value::Nil, pos + 1))
    } else if h == 0xc2 {
        Some((Value::Bool(false), pos + 1))
    } else if h == 0xc3 {
        Some((Value::Bool(true), pos + 1))
    } else if h == 0xc4 {
        if b.len() - pos >= 2 {
            decode_bin_data(b, pos + 2, b[pos + 1] as usize)
        } else {
            None
        }
    } else if h == 0xc5 {
        if b.len() - pos >= 3 {
            let len = read_be(b, pos + 1, 2);
            proof {
                lemma_be_val_bound(b@, pos + 1, 2);
            }
            decode_bin_data(b, pos + 3, len as usize)
        } else {
            None
        }
    } else if h == 0xc6 {
        if b.len() - pos >= 5 {
            let len = read_be(b, pos + 1, 4);
            proof {
                lemma_be_val_bound(b@, pos + 1, 4);
            }
            decode_bin_data(b, pos + 5, len as usize)
        } else {
            None
        }
    } else if h == 0xcc {
        if b.len() - pos >= 2 {
            Some((Value::Int(b[pos + 1] as i64), pos + 2))
        } else {
            None
        }
    } else if h == 0xcd {
        if b.len() - pos >= 3 {
            let u = read_be(b, pos + 1, 2);
            proof {
                lemma_be_val_bound(b@, pos + 1, 2);
            }
            Some((Value::Int(u as i64), pos + 3))
        } else {
            None
        }
    } else if h == 0xce {
        if b.len() - pos >= 5 {
            let u = read_be(b, pos + 1, 4);
            proof {
                lemma_be_val_bound(b@, pos + 1, 4);
            }
            Some((Value::Int(u as i64), pos + 5))
        } else {
            None
        }
    } else if h == 0xcf {
        if b.len() - pos >= 9 {
            let u = read_be(b, pos + 1, 8);
            if u <= 0x7FFF_FFFF_FFFF_FFFF {
                Some((Value::Int(u as i64), pos + 9))
            } else {
                None
            }
        } else {
            None
        }
    } else if h == 0xd0 {
        if b.len() - pos >= 2 {
            let byte = b[pos + 1];
            let v: i64 = if byte >= 0x80 {
                (byte as i64) - 256
            } else {
                byte as i64
            };
            Some((Value::Int(v), pos + 2))
        } else {
            None
        }
    } else if h == 0xd1 {
        if b.len() - pos >= 3 {
            let u = read_be(b, pos + 1, 2);
            proof {
                lemma_be_val_bound(b@, pos + 1, 2);
            }
            let v: i64 = if u >= 0x8000 {
                (u as i64) - 0x1_0000
            } else {
                u as i64
            };
            Some((Value::Int(v), pos + 3))
        } else {
            None
        }
    } else if h == 0xd2 {
        if b.len() - pos >= 5 {
            let u = read_be(b, pos + 1, 4);
            proof {
                lemma_be_val_bound(b@, pos + 1, 4);
            }
            let v: i64 = if u >= 0x8000_0000 {
                (u as i64) - 0x1_0000_0000
            } else {
                u as i64
            };
            Some((Value::Int(v), pos + 5))
        } else {
            None
        }
    } else if h == 0xd3 {
        if b.len() - pos >= 9 {
            let u = read_be(b, pos + 1, 8);
            let v: i64 = if u >= 0x8000_0000_0000_0000 {
                let neg = u64::MAX - u;
                -(neg as i64) - 1
            } else {
                u as i64
            };
            Some((Value::Int(v), pos + 9))
        } else {
            None
        }
    } else if h == 0xd9 {
        if b.len() - pos >= 2 {
            decode_str_data(b, pos + 2, b[pos + 1] as usize)
        } else {
            None
        }
    } else if h == 0xda {
        if b.len() - pos >= 3 {
            let len = read_be(b, pos + 1, 2);
            proof {
                lemma_be_val_bound(b@, pos + 1, 2);
            }
            decode_str_data(b, pos + 3, len as usize)
        } else {
            None
        }
    } else if h == 0xdb {
        if b.len() - pos >= 5 {
            let len = read_be(b, pos + 1, 4);
            proof {
                lemma_be_val_bound(b@, pos + 1, 4);
            }
            decode_str_data(b, pos + 5, len as usize)
        } else {
            None
        }
    } else if h == 0xdc {
        if b.len() - pos >= 3 {
            let n = read_be(b, pos + 1, 2);
            proof {
                lemma_be_val_bound(b@, pos + 1, 2);
            }
            match decode_elems(b, pos + 3, n as usize) {
                Some((es, p)) => Some((Value::Arr(es), p)),
                None => None,
            }
        } else {
            None
        }
    } else if h == 0xdd {
        if b.len() - pos >= 5 {
            let n = read_be(b, pos + 1, 4);
            proof {
                lemma_be_val_bound(b@, pos + 1, 4);
            }
            match decode_elems(b, pos + 5, n as usize) {
                Some((es, p)) => Some((Value::Arr(es), p)),
                None => None,
            }
        } else {
            None
        }
    } else if h == 0xde {
        if b.len() - pos >= 3 {
            let n = read_be(b, pos + 1, 2);
            proof {
                lemma_be_val_bound(b@, pos + 1, 2);
            }
            match decode_pairs(b, pos + 3, n as usize) {
                Some((es, p)) => Some((Value::Dict(es), p)),
                None => None,
            }
        } else {
            None
        }
    } else if h == 0xdf {
        if b.len() - pos >= 5 {
            let n = read_be(b, pos + 1, 4);
            proof {
                lemma_be_val_bound(b@, pos + 1, 4);
            }
            match decode_pairs(b, pos + 5, n as usize) {
                Some((es, p)) => Some((Value::Dict(es), p)),
                None => None,
            }
        } else {
            None
        }
    } else if h >= 0xe0 {
        Some((Value::Int((h as i64) - 256), pos + 1))
    } else {
        None
    }
}

/// Decodes `n` consecutive values starting at `pos`.
fn decode_elems(b: &Vec<u8>, pos: usize, n: usize) -> (r: Option<(Vec<Value>, usize)>)
    requires
        pos <= b@.len(),
    ensures
        match r {
            Some((vs, p)) => dec_elems(b@, pos as int, n as nat) == Some(
                (seq_view(vs@), p as int),
            ) && pos <= p <= b@.len(),
            None => dec_elems(b@, pos as int, n as nat) is None,
        },
    decreases b@.len() - pos, n,
{
    if n == 0 {
        let out: Vec<Value> = Vec::new();
        proof {
            assert(seq_view(out@) =~= Seq::<ValueV>::empty());
        }
        return Some((out, pos));
    }
    match decode_at(b, pos) {
        None => None,
        Some((v, p1)) => {
            match decode_elems(b, p1, n - 1) {
                None => None,
                Some((mut rest, p2)) => {
                    let ghost rest0 = rest@;
                    let mut out: Vec<Value> = Vec::new();
                    out.push(v);
                    out.append(&mut rest);
                    proof {
                        assert(out@ =~= seq![v] + rest0);
                        assert((seq![v] + rest0).first() == v);
                        assert((seq![v] + rest0).drop_first() =~= rest0);
                        assert(seq_view(out@) == seq![v@] + seq_view(rest0));
                    }
                    Some((out, p2))
                },
            }
        },
    }
}

/// Decodes `n` consecutive key-value pairs starting at `pos`.
fn decode_pairs(b: &Vec<u8>, pos: usize, n: usize) -> (r: Option<(Vec<(String, Value)>, usize)>)
    requires
        pos <= b@.len(),
    ensures
        match r {
            Some((vs, p)) => dec_pairs(b@, pos as int, n as nat) == Some(
                (pairs_view(vs@), p as int),
            ) && pos <= p <= b@.len(),
            None => dec_pairs(b@, pos as int, n as nat) is None,
        },
    decreases b@.len() - pos, n,
{
    if n == 0 {
        let out: Vec<(String, Value)> = Vec::new();
        proof {
            assert(pairs_view(out@) =~= Seq::<(Seq<char>, ValueV)>::empty());
        }
        return Some((out, pos));
    }
    match decode_at(b, pos) {
        None => None,
        Some((k, p1)) => {
            match k {
                Value::Str(ks) => {
                    match decode_at(b, p1) {
                        None => None,
                        Some((v, p2)) => {
                            match decode_pairs(b, p2, n - 1) {
                                None => None,
                                Some((mut rest, p3)) => {
                                    let ghost rest0 = rest@;
                                    let mut out: Vec<(String, Value)> = Vec::new();
                                    out.push((ks, v));
                                    out.append(&mut rest);
                                    proof {
                                        assert(out@ =~= seq![(out@[0].0, out@[0].1)] + rest0);
                                        assert((out@).drop_first() =~= rest0);
                                        assert(pairs_view(out@) == seq![(out@[0].0@, out@[0].1@)]
                                            + pairs_view(rest0));
                                    }
                                    Some((out, p3))
                                },
                            }
                        },
                    }
                },
                _ => None,
            }
        },
    }
}

/// Whether `v` fits the wire format's limits, by direct check: `true`
/// exactly where `valid` holds of its view.
pub fn check_valid(v: &Value) -> (r: bool)
    ensures
        r == valid(v@),
    decreases v,
{
    match v {
        Value::Nil => true,
        Value::Bool(_) => true,
        Value::Int(_) => true,
        Value::Str(s) => (s.as_str().as_bytes().len() as u64) < 0x1_0000_0000,
        Value::Bin(b) => (b.len() as u64) < 0x1_0000_0000,
        Value::Arr(a) => {
            proof {
                lemma_seq_view(a@);
            }
            if (a.len() as u64) >= 0x1_0000_0000 {
                return false;
            }
            let n = a.len();
            #[verifier::loop_isolation(false)]
            for i in 0..n
                invariant
                    forall|j: int| 0 <= j < i ==> valid(#[trigger] seq_view(a@)[j]),
            {
                proof {
                    lemma_seq_view(a@);
                    assert(decreases_to!(a@ => a@[i as int]));
                }
                if !check_valid(&a[i]) {
                    proof {
                        assert(!valid(seq_view(a@)[i as int]));
                    }
                    return false;
                }
            }
            proof {
                lemma_seq_view(a@);
            }
            true
        },
        Value::Dict(m) => {
            proof {
                lemma_pairs_view(m@);
            }
            if (m.len() as u64) >= 0x1_0000_0000 {
                return false;
            }
            let n = m.len();
            #[verifier::loop_isolation(false)]
            for i in 0..n
                invariant
                    forall|j: int|
                        0 <= j < i ==> encode_utf8((#[trigger] pairs_view(m@)[j]).0).len()
                            < 0x1_0000_0000 && valid(pairs_view(m@)[j].1),
            {
                proof {
                    lemma_pairs_view(m@);
                    assert(decreases_to!(m@ => m@[i as int]));
                    assert(decreases_to!(m@[i as int] => m@[i as int].1));
                }
                if (m[i].0.as_str().as_bytes().len() as u64) >= 0x1_0000_0000 {
                    proof {
                        assert(encode_utf8(pairs_view(m@)[i as int].0).len() >= 0x1_0000_0000);
                    }
                    return false;
                }
                if !check_valid(&m[i].1) {
                    proof {
                        assert(!valid(pairs_view(m@)[i as int].1));
                    }
                    return false;
                }
            }
            proof {
                lemma_pairs_view(m@);
            }
            true
        },
    }
}

/// The value under the first entry of `f` whose key is `k`, if any.
pub open spec fn lookup(f: Seq<(Seq<char>, ValueV)>, k: Seq<char>) -> Option<ValueV>
    decreases f,
{
    if f.len() == 0 {
        None
    } else if f.first().0 == k {
        Some(f.first().1)
    } else {
        lookup(f.drop_first(), k)
    }
}

/// If the first `i` keys differ from `k`, then `lookup` is decided by
/// position `i`: a hit there, or the lookup of the remainder.
pub proof fn lemma_lookup_first_match(f: Seq<(Seq<char>, ValueV)>, k: Seq<char>, i: int)
    requires
        0 <= i <= f.len(),
        forall|j: int| 0 <= j < i ==> (#[trigger] f[j]).0 != k,
    ensures
        i < f.len() && f[i].0 == k ==> lookup(f, k) == Some(f[i].1),
        i == f.len() ==> lookup(f, k) is None,
    decreases i,
{
    if i > 0 {
        assert(f.first().0 != k);
        lemma_lookup_first_match(f.drop_first(), k, i - 1);
        assert(i - 1 < f.drop_first().len() ==> f.drop_first()[i - 1] == f[i]);
    }
}

/// The first entry of `fields` under the key `key`, by linear scan.
pub fn dict_get<'a>(fields: &'a Vec<(String, Value)>, key: &str) -> (r: Option<&'a Value>)
    ensures
        match r {
            Some(v) => lookup(pairs_view(fields@), key@) == Some(v@),
            None => lookup(pairs_view(fields@), key@) is None,
        },
{
    let ks = String::from_str(key);
    let n = fields.len();
    for i in 0..n
        invariant
            n == fields@.len(),
            ks@ == key@,
            forall|j: int| 0 <= j < i ==> (#[trigger] pairs_view(fields@)[j]).0 != key@,
    {
        proof {
            lemma_pairs_view(fields@);
        }
        if fields[i].0 == ks {
            proof {
                lemma_lookup_first_match(pairs_view(fields@), key@, i as int);
            }
            return Some(&fields[i].1);
        }
        proof {
            assert(pairs_view(fields@)[i as int].0 != key@);
        }
    }
    proof {
        lemma_pairs_view(fields@);
        lemma_lookup_first_match(pairs_view(fields@), key@, n as int);
    }
    None
}

/// What decoding a whole buffer yields: one value covering every byte.
pub open spec fn dec_full(b: Seq<u8>) -> Option<ValueV> {
    match dec_value(b, 0) {
        Some((v, p)) => if p == b.len() {
            Some(v)
        } else {
            None
        },
        None => None,
    }
}

/// Decodes a whole buffer as exactly one value; trailing bytes or a
/// malformed prefix yield `None`.
pub fn decode(bytes: &Vec<u8>) -> (r: Option<Value>)
    ensures
        match r {
            Some(v) => dec_full(bytes@) == Some(v@),
            None => dec_full(bytes@) is None,
        },
{
    match decode_at(bytes, 0) {
        Some((v, p)) => if p == bytes.len() {
            Some(v)
        } else {
            None
        },
        None => None,
    }
}

} // verus!
