//! Message codec: a closed sum type over structured values and a
//! self-describing byte serialization with a proved lossless round trip.
//!
//! The wire form is ASCII-tagged and length-prefixed:
//! `n` null, `t`/`f` booleans, `i[-]<digits>;` integers (digits least
//! significant first), `s<len>;<bytes>` strings, `a<count>;<items>` sequences,
//! and `d<count>;<entries>` ordered maps, where each entry is
//! `<len>;<key bytes><item>`.

use vstd::prelude::*;

use crate::error::ConnectionError;

verus! {

/// An arbitrary structured message value: scalars, sequences and ordered
/// string-keyed maps. Every value of this type is representable on the wire;
/// encoding never fails.
#[derive(Debug, PartialEq, Eq)]
pub enum Value {
    Null,
    Bool(bool),
    Number(i64),
    Text(Vec<u8>),
    Array(Vec<Value>),
    Dict(Vec<(Vec<u8>, Value)>),
}

/// The mathematical content of a `Value`: the same tree with mathematical
/// integers and sequences in place of machine words and vectors.
#[verifier::ext_equal]
pub enum ValueModel {
    Null,
    Bool(bool),
    Number(int),
    Text(Seq<u8>),
    Array(Seq<ValueModel>),
    Dict(Seq<(Seq<u8>, ValueModel)>),
}

/// The content of `v`, structurally.
pub open spec fn deep(v: Value) -> ValueModel
    decreases v, 0int,
{
    match v {
        Value::Null => ValueModel::Null,
        Value::Bool(b) => ValueModel::Bool(b),
        Value::Number(n) => ValueModel::Number(n as int),
        Value::Text(bs) => ValueModel::Text(bs@),
        Value::Array(vs) => ValueModel::Array(deep_items(vs, 0)),
        Value::Dict(es) => ValueModel::Dict(deep_entries(es, 0)),
    }
}

/// The content of the items of `vs` from position `k` on.
pub open spec fn deep_items(vs: Vec<Value>, k: int) -> Seq<ValueModel>
    decreases vs, vs@.len() - k + 1,
{
    if k < 0 || k >= vs@.len() {
        Seq::empty()
    } else {
        seq![deep(vs@[k])] + deep_items(vs, k + 1)
    }
}

/// The content of the entries of `es` from position `k` on.
pub open spec fn deep_entries(es: Vec<(Vec<u8>, Value)>, k: int) -> Seq<(Seq<u8>, ValueModel)>
    decreases es, es@.len() - k + 1,
{
    if k < 0 || k >= es@.len() {
        Seq::empty()
    } else {
        seq![(es@[k].0@, deep(es@[k].1))] + deep_entries(es, k + 1)
    }
}

/// Decimal digits of `n`, least significant first.
pub open spec fn digits_le(n: u64) -> Seq<u8>
    decreases n,
{
    if n < 10 {
        seq![(48 + n) as u8]
    } else {
        seq![(48 + (n % 10)) as u8] + digits_le(n / 10)
    }
}

/// A terminated unsigned number: digits then `;`.
pub open spec fn enc_u64(n: u64) -> Seq<u8> {
    digits_le(n) + seq![59u8]
}

/// A terminated signed number: an optional `-`, then the magnitude.
pub open spec fn enc_i64(n: i64) -> Seq<u8> {
    if n >= 0 {
        enc_u64(n as u64)
    } else {
        seq![45u8] + enc_u64((-(n as int)) as u64)
    }
}

/// The encoding of `v`.
pub open spec fn enc_value(v: Value) -> Seq<u8>
    decreases v, 0int,
{
    match v {
        Value::Null => seq![110u8],
        Value::Bool(b) => if b {
            seq![116u8]
        } else {
            seq![102u8]
        },
        Value::Number(n) => seq![105u8] + enc_i64(n),
        Value::Text(bs) => seq![115u8] + enc_u64(bs@.len() as u64) + bs@,
        Value::Array(vs) => seq![97u8] + enc_u64(vs@.len() as u64) + enc_items(vs, 0),
        Value::Dict(es) => seq![100u8] + enc_u64(es@.len() as u64) + enc_entries(es, 0),
    }
}

/// The concatenated encodings of the items of `vs` from position `k` on.
pub open spec fn enc_items(vs: Vec<Value>, k: int) -> Seq<u8>
    decreases vs, vs@.len() - k + 1,
{
    if k < 0 || k >= vs@.len() {
        Seq::empty()
    } else {
        enc_value(vs@[k]) + enc_items(vs, k + 1)
    }
}

/// The concatenated encodings of the entries of `es` from position `k` on:
/// each entry is a length-prefixed key followed by the item.
pub open spec fn enc_entries(es: Vec<(Vec<u8>, Value)>, k: int) -> Seq<u8>
    decreases es, es@.len() - k + 1,
{
    if k < 0 || k >= es@.len() {
        Seq::empty()
    } else {
        enc_u64(es@[k].0@.len() as u64) + es@[k].0@ + enc_value(es@[k].1) + enc_entries(es, k + 1)
    }
}

/// Appends the decimal digits of `n`, least significant first.
fn encode_digits(n: u64, out: &mut Vec<u8>)
    ensures
        final(out)@ == old(out)@ + digits_le(n),
    decreases n,
{
    out.push(48 + (n % 10) as u8);
    if n >= 10 {
        encode_digits(n / 10, out);
    }
    assert(out@ =~= old(out)@ + digits_le(n));
}

/// Appends a terminated unsigned number.
fn encode_u64(n: u64, out: &mut Vec<u8>)
    ensures
        final(out)@ == old(out)@ + enc_u64(n),
{
    encode_digits(n, out);
    out.push(59);
    assert(out@ =~= old(out)@ + enc_u64(n));
}

/// Appends a terminated signed number.
fn encode_i64(n: i64, out: &mut Vec<u8>)
    ensures
        final(out)@ == old(out)@ + enc_i64(n),
{
    if n >= 0 {
        encode_u64(n as u64, out);
    } else {
        out.push(45);
        let m: u64 = if n == i64::MIN {
            9223372036854775808u64
        } else {
            (-n) as u64
        };
        encode_u64(m, out);
        assert(out@ =~= old(out)@ + enc_i64(n));
    }
}

/// Appends the encoding of `v`. Total: every `Value` is representable.
#[verifier::loop_isolation(false)]
pub fn encode_value(v: &Value, out: &mut Vec<u8>)
    ensures
        final(out)@ == old(out)@ + enc_value(*v),
    decreases *v,
{
    match v {
        Value::Null => {
            out.push(110);
        }
        Value::Bool(b) => {
            if *b {
                out.push(116);
            } else {
                out.push(102);
            }
        }
        Value::Number(n) => {
            out.push(105);
            encode_i64(*n, out);
            assert(out@ =~= old(out)@ + enc_value(*v));
        }
        Value::Text(bs) => {
            out.push(115);
            encode_u64(bs.len() as u64, out);
            let ghost mid = out@;
            let mut k: usize = 0;
            while k < bs.len()
                invariant
                    k <= bs@.len(),
                    out@ == mid + bs@.subrange(0, k as int),
                decreases bs@.len() - k,
            {
                out.push(bs[k]);
                assert(out@ =~= mid + bs@.subrange(0, (k + 1) as int));
                k = k + 1;
            }
            assert(bs@.subrange(0, bs@.len() as int) =~= bs@);
            assert(out@ =~= old(out)@ + enc_value(*v));
        }
        Value::Array(vs) => {
            out.push(97);
            encode_u64(vs.len() as u64, out);
            let ghost mid = out@;
            let mut k: usize = 0;
            while k < vs.len()
                invariant
                    k <= vs@.len(),
                    out@ + enc_items(*vs, k as int) == mid + enc_items(*vs, 0),
                decreases vs@.len() - k,
            {
                encode_value(&vs[k], out);
                assert(out@ + enc_items(*vs, (k + 1) as int) =~= mid + enc_items(*vs, 0));
                k = k + 1;
            }
            assert(out@ =~= old(out)@ + enc_value(*v));
        }
        Value::Dict(es) => {
            out.push(100);
            encode_u64(es.len() as u64, out);
            let ghost mid = out@;
            let mut k: usize = 0;
            while k < es.len()
                invariant
                    k <= es@.len(),
                    out@ + enc_entries(*es, k as int) == mid + enc_entries(*es, 0),
                decreases es@.len() - k,
            {
                encode_u64(es[k].0.len() as u64, out);
                let ghost mid2 = out@;
                let mut m: usize = 0;
                while m < es[k].0.len()
                    invariant
                        k < es@.len(),
                        m <= es@[k as int].0@.len(),
                        out@ == mid2 + es@[k as int].0@.subrange(0, m as int),
                    decreases es@[k as int].0@.len() - m,
                {
                    out.push(es[k].0[m]);
                    assert(out@ =~= mid2 + es@[k as int].0@.subrange(0, (m + 1) as int));
                    m = m + 1;
                }
                assert(es@[k as int].0@.subrange(0, es@[k as int].0@.len() as int) =~= es@[
                    k as int
                ].0@);
                encode_value(&es[k].1, out);
                assert(out@ + enc_entries(*es, (k + 1) as int) =~= mid + enc_entries(*es, 0));
                k = k + 1;
            }
            assert(out@ =~= old(out)@ + enc_value(*v));
        }
    }
}

/// Decodes a terminated unsigned number at position `i`: the value and the
/// position after the terminator. Digits are least significant first.
pub open spec fn dec_u64(s: Seq<u8>, i: int) -> Option<(u64, int)>
    decreases s.len() - i,
{
    if i < 0 || i >= s.len() {
        None
    } else if s[i] == 59 {
        Some((0u64, i + 1))
    } else if 48 <= s[i] <= 57 {
        match dec_u64(s, i + 1) {
            Some((v, j)) => {
                let val = (s[i] as int - 48) + 10 * (v as int);
                if val <= u64::MAX as int {
                    Some((val as u64, j))
                } else {
                    None
                }
            },
            None => None,
        }
    } else {
        None
    }
}

/// Decodes a terminated signed number at position `i`: its mathematical
/// value and the position after the terminator.
pub open spec fn dec_i64(s: Seq<u8>, i: int) -> Option<(int, int)> {
    if i < 0 || i >= s.len() {
        None
    } else if s[i] == 45 {
        match dec_u64(s, i + 1) {
            Some((m, j)) => if m as int <= 9223372036854775808int {
                Some((-(m as int), j))
            } else {
                None
            },
            None => None,
        }
    } else {
        match dec_u64(s, i) {
            Some((m, j)) => if m as int <= i64::MAX as int {
                Some((m as int, j))
            } else {
                None
            },
            None => None,
        }
    }
}

/// Decodes one value at position `i`: its content and the position after it.
pub open spec fn dec_value(s: Seq<u8>, i: int) -> Option<(ValueModel, int)>
    decreases s.len() - i, 0int, 0int,
{
    if i < 0 || i >= s.len() {
        None
    } else {
        let t = s[i];
        if t == 110 {
            Some((ValueModel::Null, i + 1))
        } else if t == 116 {
            Some((ValueModel::Bool(true), i + 1))
        } else if t == 102 {
            Some((ValueModel::Bool(false), i + 1))
        } else if t == 105 {
            match dec_i64(s, i + 1) {
                Some((n, j)) => Some((ValueModel::Number(n), j)),
                None => None,
            }
        } else if t == 115 {
            match dec_u64(s, i + 1) {
                Some((len, j)) => if j > i && j + len as int <= s.len() {
                    Some((ValueModel::Text(s.subrange(j, j + len as int)), j + len as int))
                } else {
                    None
                },
                None => None,
            }
        } else if t == 97 {
            match dec_u64(s, i + 1) {
                Some((n, j)) => if j > i && j <= s.len() {
                    match dec_items(s, j, n as int) {
                        Some((ms, jf)) => Some((ValueModel::Array(ms), jf)),
                        None => None,
                    }
                } else {
                    None
                },
                None => None,
            }
        } else if t == 100 {
            match dec_u64(s, i + 1) {
                Some((n, j)) => if j > i && j <= s.len() {
                    match dec_entries(s, j, n as int) {
                        Some((ms, jf)) => Some((ValueModel::Dict(ms), jf)),
                        None => None,
                    }
                } else {
                    None
                },
                None => None,
            }
        } else {
            None
        }
    }
}

/// Decodes `n` consecutive items starting at position `i`.
pub open spec fn dec_items(s: Seq<u8>, i: int, n: int) -> Option<(Seq<ValueModel>, int)>
    decreases s.len() - i, 1int, n,
{
    if n <= 0 {
        if n == 0 && 0 <= i <= s.len() {
            Some((Seq::empty(), i))
        } else {
            None
        }
    } else {
        match dec_value(s, i) {
            Some((m, j)) => if j > i && j <= s.len() {
                match dec_items(s, j, n - 1) {
                    Some((ms, jf)) => Some((seq![m] + ms, jf)),
                    None => None,
                }
            } else {
                None
            },
            None => None,
        }
    }
}

/// Decodes `n` consecutive entries (length-prefixed key, then item) starting
/// at position `i`.
pub open spec fn dec_entries(s: Seq<u8>, i: int, n: int) -> Option<
    (Seq<(Seq<u8>, ValueModel)>, int),
>
    decreases s.len() - i, 1int, n,
{
    if n <= 0 {
        if n == 0 && 0 <= i <= s.len() {
            Some((Seq::empty(), i))
        } else {
            None
        }
    } else {
        match dec_u64(s, i) {
            Some((klen, j)) => if j > i && j + klen as int <= s.len() {
                let key = s.subrange(j, j + klen as int);
                match dec_value(s, j + klen as int) {
                    Some((m, j2)) => if j2 > i && j2 <= s.len() {
                        match dec_entries(s, j2, n - 1) {
                            Some((ms, jf)) => Some((seq![(key, m)] + ms, jf)),
                            None => None,
                        }
                    } else {
                        None
                    },
                    None => None,
                }
            } else {
                None
            },
            None => None,
        }
    }
}

/// The decoded content of a whole wire message: one value that consumes the
/// input exactly.
pub open spec fn dec_message(s: Seq<u8>) -> Option<ValueModel> {
    match dec_value(s, 0) {
        Some((m, j)) => if j == s.len() {
            Some(m)
        } else {
            None
        },
        None => None,
    }
}

/// Parses a terminated unsigned number.
fn parse_u64(s: &Vec<u8>, i: usize) -> (r: Option<(u64, usize)>)
    ensures
        match r {
            Some((v, j)) => dec_u64(s@, i as int) == Some((v, j as int)) && i < j <= s@.len(),
            None => dec_u64(s@, i as int) is None,
        },
    decreases s@.len() - i,
{
    if i >= s.len() {
        None
    } else if s[i] == 59 {
        Some((0, i + 1))
    } else if 48 <= s[i] && s[i] <= 57 {
        match parse_u64(s, i + 1) {
            Some((v, j)) => {
                let d = (s[i] - 48) as u64;
                match v.checked_mul(10) {
                    Some(t) => match t.checked_add(d) {
                        Some(val) => Some((val, j)),
                        None => None,
                    },
                    None => None,
                }
            },
            None => None,
        }
    } else {
        None
    }
}

/// Parses a terminated signed number.
fn parse_i64(s: &Vec<u8>, i: usize) -> (r: Option<(i64, usize)>)
    ensures
        match r {
            Some((v, j)) => dec_i64(s@, i as int) == Some((v as int, j as int)) && i < j
                <= s@.len(),
            None => dec_i64(s@, i as int) is None,
        },
{
    if i >= s.len() {
        None
    } else if s[i] == 45 {
        match parse_u64(s, i + 1) {
            Some((m, j)) => if m <= 9223372036854775807u64 {
                Some(((-(m as i64)), j))
            } else if m == 9223372036854775808u64 {
                Some((i64::MIN, j))
            } else {
                None
            },
            None => None,
        }
    } else {
        match parse_u64(s, i) {
            Some((m, j)) => if m <= i64::MAX as u64 {
                Some((m as i64, j))
            } else {
                None
            },
            None => None,
        }
    }
}

/// Congruence: pushing one more item onto a vector appends its content to
/// the content of the items.
proof fn lemma_deep_items_push(v1: Vec<Value>, v2: Vec<Value>, w: Value, k: int)
    requires
        v2@ == v1@.push(w),
        0 <= k <= v1@.len(),
    ensures
        deep_items(v2, k) == deep_items(v1, k) + seq![deep(w)],
    decreases v1@.len() - k,
{
    if k == v1@.len() {
        assert(deep_items(v2, k + 1) =~= Seq::<ValueModel>::empty());
        assert(v2@[k] == w);
        assert(deep_items(v2, k) =~= deep_items(v1, k) + seq![deep(w)]);
    } else {
        lemma_deep_items_push(v1, v2, w, k + 1);
        assert(v2@[k] == v1@[k]);
        assert(deep_items(v2, k) =~= deep_items(v1, k) + seq![deep(w)]);
    }
}

/// Congruence: pushing one more entry onto a vector appends its content to
/// the content of the entries.
proof fn lemma_deep_entries_push(
    e1: Vec<(Vec<u8>, Value)>,
    e2: Vec<(Vec<u8>, Value)>,
    p: (Vec<u8>, Value),
    k: int,
)
    requires
        e2@ == e1@.push(p),
        0 <= k <= e1@.len(),
    ensures
        deep_entries(e2, k) == deep_entries(e1, k) + seq![(p.0@, deep(p.1))],
    decreases e1@.len() - k,
{
    if k == e1@.len() {
        assert(deep_entries(e2, k + 1) =~= Seq::<(Seq<u8>, ValueModel)>::empty());
        assert(e2@[k] == p);
        assert(deep_entries(e2, k) =~= deep_entries(e1, k) + seq![(p.0@, deep(p.1))]);
    } else {
        lemma_deep_entries_push(e1, e2, p, k + 1);
        assert(e2@[k] == e1@[k]);
        assert(deep_entries(e2, k) =~= deep_entries(e1, k) + seq![(p.0@, deep(p.1))]);
    }
}

/// Parses a length-prefixed run of bytes: a terminated length, then that
/// many raw bytes.
#[verifier::loop_isolation(false)]
fn parse_lp_bytes(s: &Vec<u8>, i: usize) -> (r: Option<(Vec<u8>, usize)>)
    ensures
        match r {
            Some((bs, j)) => dec_u64(s@, i as int) matches Some((len, jm)) && i < jm && jm
                + len as int <= s@.len() && bs@ == s@.subrange(jm, jm + len as int) && j as int
                == jm + len as int && j <= s@.len(),
            None => dec_u64(s@, i as int) matches Some((len, jm)) ==> jm + len as int > s@.len(),
        },
{
    match parse_u64(s, i) {
        Some((len64, jm)) => {
            if len64 <= (s.len() - jm) as u64 {
                let len = len64 as usize;
                let mut bs: Vec<u8> = Vec::new();
                let mut k: usize = 0;
                while k < len
                    invariant
                        k <= len,
                        jm + len <= s@.len(),
                        bs@ == s@.subrange(jm as int, (jm + k) as int),
                    decreases len - k,
                {
                    bs.push(s[jm + k]);
                    assert(bs@ =~= s@.subrange(jm as int, (jm + k + 1) as int));
                    k = k + 1;
                }
                Some((bs, jm + len))
            } else {
                None
            }
        },
        None => None,
    }
}

/// Parses one value at position `i`, returning it with the position after
/// it. Malformed input yields `DecodingFailed`; this function never panics.
#[verifier::rlimit(60)]
#[verifier::loop_isolation(false)]
pub fn parse_value(s: &Vec<u8>, i: usize) -> (r: Result<(Value, usize), ConnectionError>)
    ensures
        match r {
            Ok((w, j)) => dec_value(s@, i as int) == Some((deep(w), j as int)) && i < j
                <= s@.len(),
            Err(e) => dec_value(s@, i as int) is None && e == ConnectionError::DecodingFailed,
        },
    decreases s@.len() - i,
{
    if i >= s.len() {
        return Err(ConnectionError::DecodingFailed);
    }
    let t = s[i];
    if t == 110 {
        Ok((Value::Null, i + 1))
    } else if t == 116 {
        Ok((Value::Bool(true), i + 1))
    } else if t == 102 {
        Ok((Value::Bool(false), i + 1))
    } else if t == 105 {
        match parse_i64(s, i + 1) {
            Some((n, j)) => Ok((Value::Number(n), j)),
            None => Err(ConnectionError::DecodingFailed),
        }
    } else if t == 115 {
        match parse_lp_bytes(s, i + 1) {
            Some((bs, j)) => Ok((Value::Text(bs), j)),
            None => Err(ConnectionError::DecodingFailed),
        }
    } else if t == 97 {
        match parse_u64(s, i + 1) {
            Some((n64, j0)) => {
                let mut items: Vec<Value> = Vec::new();
                let mut jcur: usize = j0;
                let mut k: u64 = 0;
                proof {
                    assert(deep_items(items, 0) =~= Seq::<ValueModel>::empty());
                    match dec_items(s@, j0 as int, n64 as int) {
                        Some((ms, jf)) => {
                            assert(deep_items(items, 0) + ms =~= ms);
                        },
                        None => {},
                    }
                }
                while k < n64
                    invariant
                        i < jcur <= s@.len(),
                        k <= n64,
                        dec_items(s@, j0 as int, n64 as int) == (match dec_items(
                            s@,
                            jcur as int,
                            (n64 - k) as int,
                        ) {
                            Some((ms, jf)) => Some((deep_items(items, 0) + ms, jf)),
                            None => None::<(Seq<ValueModel>, int)>,
                        }),
                    decreases n64 - k,
                {
                    match parse_value(s, jcur) {
                        Ok((w, j2)) => {
                            let ghost items_old = items;
                            items.push(w);
                            proof {
                                lemma_deep_items_push(items_old, items, w, 0);
                                match dec_items(s@, j2 as int, (n64 - k - 1) as int) {
                                    Some((ms2, jf)) => {
                                        assert(deep_items(items_old, 0) + (seq![deep(w)] + ms2)
                                            =~= deep_items(items, 0) + ms2);
                                    },
                                    None => {},
                                }
                            }
                            jcur = j2;
                            k = k + 1;
                        },
                        Err(_) => {
                            return Err(ConnectionError::DecodingFailed);
                        },
                    }
                }
                proof {
                    assert(deep_items(items, 0) + Seq::<ValueModel>::empty() =~= deep_items(
                        items,
                        0,
                    ));
                }
                Ok((Value::Array(items), jcur))
            },
            None => Err(ConnectionError::DecodingFailed),
        }
    } else if t == 100 {
        match parse_u64(s, i + 1) {
            Some((n64, j0)) => {
                let mut entries: Vec<(Vec<u8>, Value)> = Vec::new();
                let mut jcur: usize = j0;
                let mut k: u64 = 0;
                proof {
                    assert(deep_entries(entries, 0) =~= Seq::<(Seq<u8>, ValueModel)>::empty());
                    match dec_entries(s@, j0 as int, n64 as int) {
                        Some((ms, jf)) => {
                            assert(deep_entries(entries, 0) + ms =~= ms);
                        },
                        None => {},
                    }
                }
                while k < n64
                    invariant
                        i < jcur <= s@.len(),
                        k <= n64,
                        dec_entries(s@, j0 as int, n64 as int) == (match dec_entries(
                            s@,
                            jcur as int,
                            (n64 - k) as int,
                        ) {
                            Some((ms, jf)) => Some((deep_entries(entries, 0) + ms, jf)),
                            None => None::<(Seq<(Seq<u8>, ValueModel)>, int)>,
                        }),
                    decreases n64 - k,
                {
                    match parse_lp_bytes(s, jcur) {
                        Some((key, jk2)) => {
                            match parse_value(s, jk2) {
                                Ok((w, j2)) => {
                                    let ghost entries_old = entries;
                                    let pair = (key, w);
                                    let ghost pairg = pair;
                                    entries.push(pair);
                                    proof {
                                        lemma_deep_entries_push(entries_old, entries, pairg, 0);
                                        match dec_entries(s@, j2 as int, (n64 - k - 1) as int) {
                                            Some((ms2, jf)) => {
                                                assert(deep_entries(entries_old, 0) + (seq![
                                                    (pairg.0@, deep(pairg.1)),
                                                ] + ms2) =~= deep_entries(entries, 0) + ms2);
                                            },
                                            None => {},
                                        }
                                    }
                                    jcur = j2;
                                    k = k + 1;
                                },
                                Err(_) => {
                                    return Err(ConnectionError::DecodingFailed);
                                },
                            }
                        },
                        None => {
                            return Err(ConnectionError::DecodingFailed);
                        },
                    }
                }
                proof {
                    assert(deep_entries(entries, 0) + Seq::<(Seq<u8>, ValueModel)>::empty()
                        =~= deep_entries(entries, 0));
                }
                Ok((Value::Dict(entries), jcur))
            },
            None => Err(ConnectionError::DecodingFailed),
        }
    } else {
        Err(ConnectionError::DecodingFailed)
    }
}

/// Every value encoding starts with its tag byte.
proof fn lemma_enc_value_len(v: Value)
    ensures
        enc_value(v).len() >= 1,
{
}

/// Transfers a matching window: if `s` holds `e` at position `i`, any part
/// of `e` appears in `s` at the shifted position.
proof fn lemma_subrange_of_matching(s: Seq<u8>, i: int, e: Seq<u8>, a: int, b: int)
    requires
        0 <= i,
        i + e.len() <= s.len(),
        s.subrange(i, i + e.len() as int) == e,
        0 <= a <= b <= e.len(),
    ensures
        s.subrange(i + a, i + b) == e.subrange(a, b),
{
    assert forall|m: int| 0 <= m < b - a implies s.subrange(i + a, i + b)[m] == e.subrange(
        a,
        b,
    )[m] by {
        assert(e[a + m] == s.subrange(i, i + e.len() as int)[a + m]);
    }
    assert(s.subrange(i + a, i + b) =~= e.subrange(a, b));
}

/// Decoding inverts the encoding of a terminated unsigned number wherever it
/// is embedded.
proof fn lemma_dec_enc_u64(n: u64, s: Seq<u8>, i: int)
    requires
        0 <= i,
        i + enc_u64(n).len() <= s.len(),
        s.subrange(i, i + enc_u64(n).len() as int) == enc_u64(n),
    ensures
        dec_u64(s, i) == Some((n, i + enc_u64(n).len() as int)),
    decreases n,
{
    vstd::arithmetic::div_mod::lemma_fundamental_div_mod(n as int, 10);
    let e = enc_u64(n);
    let l = e.len() as int;
    assert(s[i] == e[0]);
    if n < 10 {
        assert(e[0] == (48 + n) as u8);
        assert(s[i + 1] == e[1]);
        assert(e[1] == 59);
        assert(dec_u64(s, i + 1) == Some((0u64, i + 2)));
    } else {
        assert(e[0] == (48 + (n % 10)) as u8);
        let e2 = enc_u64(n / 10);
        assert(e =~= seq![(48 + (n % 10)) as u8] + e2);
        lemma_subrange_of_matching(s, i, e, 1, l);
        assert(e.subrange(1, l) =~= e2);
        lemma_dec_enc_u64(n / 10, s, i + 1);
        assert((s[i] as int - 48) + 10 * ((n / 10) as int) == n as int);
    }
}

/// Decoding inverts the encoding of a terminated signed number wherever it
/// is embedded.
proof fn lemma_dec_enc_i64(n: i64, s: Seq<u8>, i: int)
    requires
        0 <= i,
        i + enc_i64(n).len() <= s.len(),
        s.subrange(i, i + enc_i64(n).len() as int) == enc_i64(n),
    ensures
        dec_i64(s, i) == Some((n as int, i + enc_i64(n).len() as int)),
{
    let e = enc_i64(n);
    let l = e.len() as int;
    assert(s[i] == e[0]);
    if n >= 0 {
        let m = n as u64;
        assert(e == enc_u64(m));
        assert(e[0] == digits_le(m)[0]);
        if m < 10 {
            assert(digits_le(m)[0] == (48 + m) as u8);
        } else {
            vstd::arithmetic::div_mod::lemma_fundamental_div_mod(m as int, 10);
            assert(digits_le(m)[0] == (48 + (m % 10)) as u8);
        }
        assert(48 <= s[i] <= 57);
        lemma_dec_enc_u64(m, s, i);
    } else {
        let m = (-(n as int)) as u64;
        assert(e =~= seq![45u8] + enc_u64(m));
        assert(s[i] == 45);
        lemma_subrange_of_matching(s, i, e, 1, l);
        assert(e.subrange(1, l) =~= enc_u64(m));
        lemma_dec_enc_u64(m, s, i + 1);
        assert(m as int <= 9223372036854775808int);
        assert(-(m as int) == n as int);
    }
}

/// Decoding inverts the encoding of one value wherever it is embedded.
#[verifier::rlimit(100)]
pub proof fn lemma_dec_enc_value(v: Value, s: Seq<u8>, i: int)
    requires
        0 <= i,
        i + enc_value(v).len() <= s.len(),
        s.subrange(i, i + enc_value(v).len() as int) == enc_value(v),
    ensures
        dec_value(s, i) == Some((deep(v), i + enc_value(v).len() as int)),
    decreases v, 0int,
{
    let e = enc_value(v);
    let l = e.len() as int;
    assert(s[i] == e[0]);
    match v {
        Value::Null => {
        },
        Value::Bool(b) => {
        },
        Value::Number(n) => {
            assert(e =~= seq![105u8] + enc_i64(n));
            lemma_subrange_of_matching(s, i, e, 1, l);
            assert(e.subrange(1, l) =~= enc_i64(n));
            lemma_dec_enc_i64(n, s, i + 1);
        },
        Value::Text(bs) => {
            assert(bs@.len() == bs.len());
            let cnt = bs@.len() as u64;
            let eu = enc_u64(cnt);
            let ul = eu.len() as int;
            assert(e =~= seq![115u8] + eu + bs@);
            lemma_subrange_of_matching(s, i, e, 1, 1 + ul);
            assert(e.subrange(1, 1 + ul) =~= eu);
            lemma_dec_enc_u64(cnt, s, i + 1);
            let j = i + 1 + ul;
            lemma_subrange_of_matching(s, i, e, 1 + ul, l);
            assert(e.subrange(1 + ul, l) =~= bs@);
            assert(s.subrange(j, j + cnt as int) == bs@);
        },
        Value::Array(vs) => {
            assert(vs@.len() == vs.len());
            let cnt = vs@.len() as u64;
            let eu = enc_u64(cnt);
            let ul = eu.len() as int;
            assert(e =~= seq![97u8] + eu + enc_items(vs, 0));
            lemma_subrange_of_matching(s, i, e, 1, 1 + ul);
            assert(e.subrange(1, 1 + ul) =~= eu);
            lemma_dec_enc_u64(cnt, s, i + 1);
            let j = i + 1 + ul;
            lemma_subrange_of_matching(s, i, e, 1 + ul, l);
            assert(e.subrange(1 + ul, l) =~= enc_items(vs, 0));
            lemma_dec_enc_items(vs, 0, s, j);
        },
        Value::Dict(es) => {
            assert(es@.len() == es.len());
            let cnt = es@.len() as u64;
            let eu = enc_u64(cnt);
            let ul = eu.len() as int;
            assert(e =~= seq![100u8] + eu + enc_entries(es, 0));
            lemma_subrange_of_matching(s, i, e, 1, 1 + ul);
            assert(e.subrange(1, 1 + ul) =~= eu);
            lemma_dec_enc_u64(cnt, s, i + 1);
            let j = i + 1 + ul;
            lemma_subrange_of_matching(s, i, e, 1 + ul, l);
            assert(e.subrange(1 + ul, l) =~= enc_entries(es, 0));
            lemma_dec_enc_entries(es, 0, s, j);
        },
    }
}

/// Decoding inverts the encoding of a run of items wherever it is embedded.
#[verifier::rlimit(100)]
proof fn lemma_dec_enc_items(vs: Vec<Value>, k: int, s: Seq<u8>, i: int)
    requires
        0 <= k <= vs@.len(),
        0 <= i,
        i + enc_items(vs, k).len() <= s.len(),
        s.subrange(i, i + enc_items(vs, k).len() as int) == enc_items(vs, k),
    ensures
        dec_items(s, i, vs@.len() - k) == Some(
            (deep_items(vs, k), i + enc_items(vs, k).len() as int),
        ),
    decreases vs, vs@.len() - k + 1,
{
    if k == vs@.len() {
    } else {
        let e = enc_items(vs, k);
        let l = e.len() as int;
        let ev = enc_value(vs@[k]);
        let vl = ev.len() as int;
        let rest = enc_items(vs, k + 1);
        assert(e =~= ev + rest);
        lemma_subrange_of_matching(s, i, e, 0, vl);
        assert(e.subrange(0, vl) =~= ev);
        lemma_dec_enc_value(vs@[k], s, i);
        lemma_enc_value_len(vs@[k]);
        let j = i + vl;
        lemma_subrange_of_matching(s, i, e, vl, l);
        assert(e.subrange(vl, l) =~= rest);
        lemma_dec_enc_items(vs, k + 1, s, j);
    }
}

/// Decoding inverts the encoding of a run of entries wherever it is
/// embedded.
#[verifier::rlimit(100)]
proof fn lemma_dec_enc_entries(es: Vec<(Vec<u8>, Value)>, k: int, s: Seq<u8>, i: int)
    requires
        0 <= k <= es@.len(),
        0 <= i,
        i + enc_entries(es, k).len() <= s.len(),
        s.subrange(i, i + enc_entries(es, k).len() as int) == enc_entries(es, k),
    ensures
        dec_entries(s, i, es@.len() - k) == Some(
            (deep_entries(es, k), i + enc_entries(es, k).len() as int),
        ),
    decreases es, es@.len() - k + 1,
{
    if k == es@.len() {
    } else {
        let e = enc_entries(es, k);
        let l = e.len() as int;
        let key = es@[k].0;
        assert(key@.len() == key.len());
        let klen = key@.len() as u64;
        let eu = enc_u64(klen);
        let ul = eu.len() as int;
        let ev = enc_value(es@[k].1);
        let vl = ev.len() as int;
        let rest = enc_entries(es, k + 1);
        assert(e =~= eu + key@ + ev + rest);
        lemma_subrange_of_matching(s, i, e, 0, ul);
        assert(e.subrange(0, ul) =~= eu);
        lemma_dec_enc_u64(klen, s, i);
        let j = i + ul;
        lemma_subrange_of_matching(s, i, e, ul, ul + klen as int);
        assert(e.subrange(ul, ul + klen as int) =~= key@);
        assert(s.subrange(j, j + klen as int) == key@);
        let j2 = j + klen as int;
        lemma_subrange_of_matching(s, i, e, ul + klen as int, ul + klen as int + vl);
        assert(e.subrange(ul + klen as int, ul + klen as int + vl) =~= ev);
        lemma_dec_enc_value(es@[k].1, s, j2);
        lemma_enc_value_len(es@[k].1);
        let j3 = j2 + vl;
        lemma_subrange_of_matching(s, i, e, ul + klen as int + vl, l);
        assert(e.subrange(ul + klen as int + vl, l) =~= rest);
        lemma_dec_enc_entries(es, k + 1, s, j3);
    }
}

/// THE round trip: decoding the encoding of any representable value yields
/// exactly that value's content, for every `Value`.
pub proof fn lemma_codec_round_trip(v: Value)
    ensures
        dec_message(enc_value(v)) == Some(deep(v)),
{
    let s = enc_value(v);
    assert(s.subrange(0, s.len() as int) =~= s);
    lemma_dec_enc_value(v, s, 0);
}

/// Decodes a whole wire message: exactly one value consuming the input.
pub fn decode(s: &Vec<u8>) -> (r: Result<Value, ConnectionError>)
    ensures
        match r {
            Ok(w) => dec_message(s@) == Some(deep(w)),
            Err(e) => dec_message(s@) is None && e == ConnectionError::DecodingFailed,
        },
{
    match parse_value(s, 0) {
        Ok((w, j)) => if j == s.len() {
            Ok(w)
        } else {
            Err(ConnectionError::DecodingFailed)
        },
        Err(e) => Err(e),
    }
}

/// Encodes `v` to its wire form. Never fails: every `Value` is representable.
pub fn encode(v: &Value) -> (out: Vec<u8>)
    ensures
        out@ == enc_value(*v),
{
    let mut out: Vec<u8> = Vec::new();
    encode_value(v, &mut out);
    out
}

} // verus!
