//! The wire text of a JSON document, as bytes.
//!
//! `enc_jv` is the exact byte sequence the encoder is proved to produce:
//! members in model order with no whitespace, strings quoted with `"` and
//! `\` escaped and every control or non-ASCII character written as a
//! `\u` escape (a supplementary character as its surrogate pair), and
//! integers in decimal with a leading `-` for negatives.

use vstd::prelude::*;

use crate::json::{
    fields_view, jsize, lemma_fields_size_elem, lemma_fields_view_index, lemma_fields_view_len,
    lemma_list_size_elem, lemma_list_view_index, lemma_list_view_len, list_view, Json, JsonV,
};

verus! {

/// One hexadecimal digit, lower case.
pub open spec fn hex_digit(d: int) -> u8 {
    if d < 10 {
        (48 + d) as u8
    } else {
        (87 + d) as u8
    }
}

/// Four hexadecimal digits.
pub open spec fn hex4(n: int) -> Seq<u8> {
    seq![
        hex_digit(n / 4096 % 16),
        hex_digit(n / 256 % 16),
        hex_digit(n / 16 % 16),
        hex_digit(n % 16),
    ]
}

/// The `\u` escape of a code point: one escape for the basic plane, a
/// surrogate pair for a supplementary character.
pub open spec fn unicode_escape(n: int) -> Seq<u8> {
    if n < 0x10000 {
        seq![92u8, 117u8] + hex4(n)
    } else {
        seq![92u8, 117u8] + hex4(0xd800 + (n - 0x10000) / 0x400) + seq![92u8, 117u8] + hex4(
            0xdc00 + (n - 0x10000) % 0x400,
        )
    }
}

/// The bytes of one string character: `"` and `\` get a backslash escape,
/// every control or non-ASCII character a `\u` escape, the rest stand as
/// themselves.
pub open spec fn esc_char(c: char) -> Seq<u8> {
    if c == '"' {
        seq![92u8, 34u8]
    } else if c == '\\' {
        seq![92u8, 92u8]
    } else if (c as u32) < 0x20 || (c as u32) > 0x7e {
        unicode_escape(c as int)
    } else {
        seq![c as u8]
    }
}

/// The escaped bytes of a string's characters.
pub open spec fn esc_str(s: Seq<char>) -> Seq<u8>
    decreases s.len(),
{
    if s.len() == 0 {
        Seq::empty()
    } else {
        esc_str(s.drop_last()) + esc_char(s[s.len() - 1])
    }
}

/// A quoted, escaped JSON string.
pub open spec fn enc_quoted(s: Seq<char>) -> Seq<u8> {
    seq![34u8] + esc_str(s) + seq![34u8]
}

/// The decimal digits of a non-negative integer.
pub open spec fn dec_digits(n: int) -> Seq<u8>
    decreases n,
{
    if n < 10 {
        seq![(48 + n) as u8]
    } else {
        dec_digits(n / 10) + seq![(48 + n % 10) as u8]
    }
}

/// A decimal integer, with a leading `-` when negative.
pub open spec fn enc_int(n: int) -> Seq<u8> {
    if n < 0 {
        seq![45u8] + dec_digits(-n)
    } else {
        dec_digits(n)
    }
}

/// The wire bytes of a JSON document.
pub open spec fn enc_jv(v: JsonV) -> Seq<u8>
    decreases v,
{
    match v {
        JsonV::Null => seq![110u8, 117u8, 108u8, 108u8],
        JsonV::Bool(b) => if b {
            seq![116u8, 114u8, 117u8, 101u8]
        } else {
            seq![102u8, 97u8, 108u8, 115u8, 101u8]
        },
        JsonV::Int(n) => enc_int(n),
        JsonV::Str(s) => enc_quoted(s),
        JsonV::Arr(es) => seq![91u8] + enc_list(es) + seq![93u8],
        JsonV::Obj(fs) => seq![123u8] + enc_fields(fs) + seq![125u8],
    }
}

/// The comma-separated elements of an array.
pub open spec fn enc_list(es: Seq<JsonV>) -> Seq<u8>
    decreases es,
{
    if es.len() == 0 {
        Seq::empty()
    } else if es.len() == 1 {
        enc_jv(es[0])
    } else {
        enc_list(es.drop_last()) + seq![44u8] + enc_jv(es[es.len() - 1])
    }
}

/// The comma-separated `"key":value` members of an object.
pub open spec fn enc_fields(fs: Seq<(Seq<char>, JsonV)>) -> Seq<u8>
    decreases fs,
{
    if fs.len() == 0 {
        Seq::empty()
    } else if fs.len() == 1 {
        enc_quoted(fs[0].0) + seq![58u8] + enc_jv(fs[0].1)
    } else {
        enc_fields(fs.drop_last()) + seq![44u8] + enc_quoted(fs[fs.len() - 1].0) + seq![58u8]
            + enc_jv(fs[fs.len() - 1].1)
    }
}

/// Writes four hexadecimal digits.
fn push_hex4(n: u32, out: &mut Vec<u8>)
    requires
        n < 0x10000,
    ensures
        final(out)@ == old(out)@ + hex4(n as int),
{
    let d0: u32 = n / 4096 % 16;
    let d1: u32 = n / 256 % 16;
    let d2: u32 = n / 16 % 16;
    let d3: u32 = n % 16;
    out.push(if d0 < 10 { (48 + d0) as u8 } else { (87 + d0) as u8 });
    out.push(if d1 < 10 { (48 + d1) as u8 } else { (87 + d1) as u8 });
    out.push(if d2 < 10 { (48 + d2) as u8 } else { (87 + d2) as u8 });
    out.push(if d3 < 10 { (48 + d3) as u8 } else { (87 + d3) as u8 });
    proof {
        assert(out@ =~= old(out)@ + hex4(n as int));
    }
}

/// Writes the `\u` escape of one character.
fn push_unicode_escape(c: char, out: &mut Vec<u8>)
    ensures
        final(out)@ == old(out)@ + unicode_escape(c as int),
{
    let u: u32 = c as u32;
    if u < 0x10000 {
        out.push(92);
        out.push(117);
        push_hex4(u, out);
        proof {
            assert(out@ =~= old(out)@ + unicode_escape(c as int));
        }
    } else {
        let rest: u32 = u - 0x10000;
        out.push(92);
        out.push(117);
        push_hex4(0xd800 + rest / 0x400, out);
        out.push(92);
        out.push(117);
        push_hex4(0xdc00 + rest % 0x400, out);
        proof {
            assert(out@ =~= old(out)@ + unicode_escape(c as int));
        }
    }
}

/// Writes a quoted, escaped JSON string.
fn push_quoted(s: &str, out: &mut Vec<u8>)
    ensures
        final(out)@ == old(out)@ + enc_quoted(s@),
{
    out.push(34);
    let len: usize = s.unicode_len();
    let mut i: usize = 0;
    while i < len
        invariant
            i <= len,
            len == s@.len(),
            out@ == old(out)@ + seq![34u8] + esc_str(s@.take(i as int)),
        decreases len - i,
    {
        let c: char = s.get_char(i);
        if c == '"' {
            out.push(92);
            out.push(34);
        } else if c == '\\' {
            out.push(92);
            out.push(92);
        } else {
            let u: u32 = c as u32;
            if u < 0x20 || u > 0x7e {
                push_unicode_escape(c, out);
            } else {
                out.push(u as u8);
            }
        }
        proof {
            assert(s@.take(i as int + 1).drop_last() =~= s@.take(i as int));
            assert(s@.take(i as int + 1)[i as int] == s@[i as int]);
            assert(out@ =~= old(out)@ + seq![34u8] + esc_str(s@.take(i as int + 1)));
        }
        i += 1;
    }
    out.push(34);
    proof {
        assert(s@.take(len as int) =~= s@);
        assert(out@ =~= old(out)@ + enc_quoted(s@));
    }
}

/// The byte order of a sequence reversed.
spec fn rev_bytes(s: Seq<u8>) -> Seq<u8> {
    Seq::new(s.len(), |i: int| s[s.len() - 1 - i])
}

/// Writes a decimal integer.
fn push_int(n: i64, out: &mut Vec<u8>)
    ensures
        final(out)@ == old(out)@ + enc_int(n as int),
{
    let mut m: u64;
    if n < 0 {
        out.push(45);
        if n == i64::MIN {
            m = 9223372036854775808u64;
        } else {
            m = (-n) as u64;
        }
    } else {
        m = n as u64;
    }
    let ghost m0: int = m as int;
    let mut tmp: Vec<u8> = Vec::new();
    while m >= 10
        invariant
            dec_digits(m0) =~= dec_digits(m as int) + rev_bytes(tmp@),
        decreases m,
    {
        let d: u8 = (48 + (m % 10)) as u8;
        tmp.push(d);
        proof {
            assert(rev_bytes(tmp@) =~= seq![d] + rev_bytes(tmp@.drop_last()));
        }
        m = m / 10;
    }
    let ghost base = out@;
    out.push((48 + m) as u8);
    let mut k: usize = tmp.len();
    while k > 0
        invariant
            k <= tmp.len(),
            out@ == base + seq![(48 + (m as int)) as u8] + rev_bytes(tmp@).take(
                tmp.len() - k as int,
            ),
        decreases k,
    {
        k -= 1;
        out.push(tmp[k]);
        proof {
            assert(rev_bytes(tmp@).take(tmp.len() - k as int).drop_last() =~= rev_bytes(
                tmp@,
            ).take(tmp.len() - (k as int + 1)));
            assert(rev_bytes(tmp@)[tmp.len() - 1 - k as int] == tmp@[k as int]);
            assert(out@ =~= base + seq![(48 + (m as int)) as u8] + rev_bytes(tmp@).take(
                tmp.len() - k as int,
            ));
        }
    }
    proof {
        assert(rev_bytes(tmp@).take(tmp.len() as int) =~= rev_bytes(tmp@));
        assert(out@ =~= old(out)@ + enc_int(n as int));
    }
}

/// Writes the wire bytes of a JSON document.
pub fn write_json(j: &Json, out: &mut Vec<u8>)
    ensures
        final(out)@ == old(out)@ + enc_jv(j@),
    decreases jsize(*j),
{
    match j {
        Json::Null => {
            out.push(110);
            out.push(117);
            out.push(108);
            out.push(108);
            proof {
                assert(out@ =~= old(out)@ + enc_jv(j@));
            }
        },
        Json::Bool(b) => {
            if *b {
                out.push(116);
                out.push(114);
                out.push(117);
                out.push(101);
            } else {
                out.push(102);
                out.push(97);
                out.push(108);
                out.push(115);
                out.push(101);
            }
            proof {
                assert(out@ =~= old(out)@ + enc_jv(j@));
            }
        },
        Json::Int(n) => {
            push_int(*n, out);
        },
        Json::Str(s) => {
            push_quoted(s.as_str(), out);
        },
        Json::Arr(v) => {
            let ghost es = list_view(v@);
            proof {
                lemma_list_view_len(v@);
            }
            out.push(91);
            let mut i: usize = 0;
            while i < v.len()
                invariant
                    *j == Json::Arr(*v),
                    es == list_view(v@),
                    es.len() == v@.len(),
                    i <= v.len(),
                    out@ == old(out)@ + seq![91u8] + enc_list(es.take(i as int)),
                decreases v.len() - i,
            {
                if i > 0 {
                    out.push(44);
                }
                proof {
                    lemma_list_size_elem(v@, i as int);
                    lemma_list_view_index(v@, i as int);
                }
                write_json(&v[i], out);
                proof {
                    assert(es.take(i as int + 1).drop_last() =~= es.take(i as int));
                    assert(es.take(i as int + 1)[i as int] == es[i as int]);
                    assert(out@ =~= old(out)@ + seq![91u8] + enc_list(es.take(i as int + 1)));
                }
                i += 1;
            }
            out.push(93);
            proof {
                assert(es.take(es.len() as int) =~= es);
                assert(out@ =~= old(out)@ + enc_jv(j@));
            }
        },
        Json::Obj(v) => {
            let ghost fs = fields_view(v@);
            proof {
                lemma_fields_view_len(v@);
            }
            out.push(123);
            let mut i: usize = 0;
            while i < v.len()
                invariant
                    *j == Json::Obj(*v),
                    fs == fields_view(v@),
                    fs.len() == v@.len(),
                    i <= v.len(),
                    out@ == old(out)@ + seq![123u8] + enc_fields(fs.take(i as int)),
                decreases v.len() - i,
            {
                if i > 0 {
                    out.push(44);
                }
                proof {
                    lemma_fields_size_elem(v@, i as int);
                    lemma_fields_view_index(v@, i as int);
                }
                push_quoted(v[i].0.as_str(), out);
                out.push(58);
                write_json(&v[i].1, out);
                proof {
                    assert(fs.take(i as int + 1).drop_last() =~= fs.take(i as int));
                    assert(fs.take(i as int + 1)[i as int] == fs[i as int]);
                    assert(out@ =~= old(out)@ + seq![123u8] + enc_fields(fs.take(i as int + 1)));
                }
                i += 1;
            }
            out.push(125);
            proof {
                assert(fs.take(fs.len() as int) =~= fs);
                assert(out@ =~= old(out)@ + enc_jv(j@));
            }
        },
    }
}

impl Json {
    /// The wire bytes of this document.
    pub fn to_bytes(&self) -> (r: Vec<u8>)
        ensures
            r@ == enc_jv(self@),
    {
        let mut out: Vec<u8> = Vec::new();
        write_json(self, &mut out);
        out
    }
}

impl crate::response::RpcResponse {
    /// The wire bytes of this envelope.
    pub fn to_bytes(&self) -> (r: Vec<u8>)
        ensures
            r@ == enc_jv(crate::response::response_jv(self@)),
    {
        let j = self.to_json();
        j.to_bytes()
    }
}

impl crate::response::Response {
    /// The transport-ready wire bytes: one object for a single response, an
    /// array of objects, in supplied order, for a batch.
    pub fn to_bytes(&self) -> (r: Vec<u8>)
        ensures
            r@ == enc_jv(crate::response::batch_jv(self@)),
    {
        let j = self.to_json();
        j.to_bytes()
    }
}

} // verus!
