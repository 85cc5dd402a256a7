//! Decoding of the creation callback's acknowledgement payload.
//!
//! The host acknowledges a contract instantiation with a binary message in
//! protocol-buffers wire format; its field 1 is a length-delimited string
//! holding the new contract's address. The decoder reads that field and
//! skips well-formed unknown fields; anything else — a truncated or overlong
//! variable-width integer, a group, a length past the end of the payload, an
//! address that is absent, empty or not UTF-8 — is refused, since a damaged
//! acknowledgement must not commit a record.

use vstd::prelude::*;
use vstd::utf8::decode_utf8;
use vstd::utf8::encode_utf8;
use vstd::utf8::encode_utf8_decode_utf8;
use vstd::utf8::encode_utf8_valid_utf8;
use vstd::utf8::valid_utf8;
use vstd::string::StringSliceAdditionalSpecFns;

verus! {

/// One more than the largest value a wire integer may take: they carry
/// sixty-four bits.
pub open spec fn wire_integer_limit() -> nat {
    0x1_0000_0000_0000_0000
}

/// The byte length of the variable-width integer at the head of `bytes`:
/// every byte but the last has its high bit set, and at most ten bytes are
/// allowed. `None` where the head is no such integer.
pub open spec fn vint_len(bytes: Seq<u8>) -> Option<int>
    decreases bytes.len(),
{
    if bytes.len() == 0 {
        None
    } else if bytes[0] < 0x80 {
        Some(1)
    } else {
        match vint_len(bytes.drop_first()) {
            None => None,
            Some(n) => if n >= 10 {
                None
            } else {
                Some(n + 1)
            },
        }
    }
}

/// The value of the variable-width integer at the head of `bytes`: its low
/// seven-bit groups come first.
pub open spec fn vint_value(bytes: Seq<u8>) -> nat
    decreases bytes.len(),
{
    if bytes.len() == 0 {
        0
    } else if bytes[0] < 0x80 {
        bytes[0] as nat
    } else {
        (bytes[0] - 0x80) as nat + 0x80 * vint_value(bytes.drop_first())
    }
}

/// A well-formed head integer spans one to ten bytes of `bytes`.
pub proof fn lemma_vint_len_bounds(bytes: Seq<u8>)
    ensures
        vint_len(bytes) is Some ==> 1 <= vint_len(bytes)->0 <= 10 && vint_len(bytes)->0
            <= bytes.len(),
    decreases bytes.len(),
{
    if bytes.len() > 0 && bytes[0] >= 0x80 {
        lemma_vint_len_bounds(bytes.drop_first());
    }
}

/// Walks the message field by field: `None` where the message is malformed,
/// otherwise the payload of the last field 1, if one came. `addr` carries
/// the candidate found so far.
pub open spec fn scan_fields(bytes: Seq<u8>, addr: Option<Seq<u8>>) -> Option<Option<Seq<u8>>>
    decreases bytes.len(),
    via scan_fields_dec
{
    if bytes.len() == 0 {
        Some(addr)
    } else {
        match vint_len(bytes) {
            None => None,
            Some(tl) => {
                let tag = vint_value(bytes);
                if tag >= wire_integer_limit() {
                    None
                } else {
                    let field = tag / 8;
                    let wire = tag % 8;
                    let rest = bytes.skip(tl);
                    if field == 0 {
                        None
                    } else if wire == 0 {
                        // a varint field; the address field is none such
                        match vint_len(rest) {
                            None => None,
                            Some(vl) => if vint_value(rest) < wire_integer_limit() && field != 1 {
                                scan_fields(rest.skip(vl), addr)
                            } else {
                                None
                            },
                        }
                    } else if wire == 1 {
                        // an eight-byte field
                        if rest.len() >= 8 && field != 1 {
                            scan_fields(rest.skip(8), addr)
                        } else {
                            None
                        }
                    } else if wire == 2 {
                        // a length-delimited field; field 1 is the address
                        match vint_len(rest) {
                            None => None,
                            Some(ll) => {
                                let l = vint_value(rest);
                                if ll + l <= rest.len() {
                                    scan_fields(
                                        rest.skip(ll + l),
                                        if field == 1 {
                                            Some(rest.subrange(ll, ll + l))
                                        } else {
                                            addr
                                        },
                                    )
                                } else {
                                    None
                                }
                            },
                        }
                    } else if wire == 5 {
                        // a four-byte field
                        if rest.len() >= 4 && field != 1 {
                            scan_fields(rest.skip(4), addr)
                        } else {
                            None
                        }
                    } else {
                        // groups and unassigned wire kinds
                        None
                    }
                }
            },
        }
    }
}

#[via_fn]
proof fn scan_fields_dec(bytes: Seq<u8>, addr: Option<Seq<u8>>) {
    lemma_vint_len_bounds(bytes);
    if bytes.len() > 0 && vint_len(bytes) is Some {
        let tl = vint_len(bytes)->0;
        lemma_vint_len_bounds(bytes.skip(tl));
    }
}

/// The address the acknowledgement carries: present, non-empty and UTF-8 in
/// a well-formed message, `None` otherwise.
pub open spec fn spec_decode_address(data: Seq<u8>) -> Option<Seq<char>> {
    match scan_fields(data, None) {
        Some(Some(payload)) => if payload.len() > 0 && valid_utf8(payload) {
            Some(decode_utf8(payload))
        } else {
            None
        },
        _ => None,
    }
}

/// 128 to the `k`th.
pub open spec fn pow128(k: nat) -> nat
    decreases k,
{
    if k == 0 {
        1
    } else {
        128 * pow128((k - 1) as nat)
    }
}

proof fn lemma_pow128_pos(k: nat)
    ensures
        1 <= pow128(k),
    decreases k,
{
    if k > 0 {
        lemma_pow128_pos((k - 1) as nat);
    }
}

proof fn lemma_pow128_mono(j: nat, k: nat)
    requires
        j <= k,
    ensures
        pow128(j) <= pow128(k),
    decreases k,
{
    if j < k {
        lemma_pow128_mono(j, (k - 1) as nat);
        lemma_pow128_pos((k - 1) as nat);
    }
}

proof fn lemma_pow128_values()
    ensures
        pow128(9) == 0x8000_0000_0000_0000,
        pow128(10) == 0x40_0000_0000_0000_0000,
{
    assert(pow128(0) == 1);
    assert(pow128(1) == 0x80);
    assert(pow128(2) == 0x4000);
    assert(pow128(3) == 0x20_0000);
    assert(pow128(4) == 0x1000_0000);
    assert(pow128(5) == 0x8_0000_0000);
    assert(pow128(6) == 0x400_0000_0000);
    assert(pow128(7) == 0x2_0000_0000_0000);
    assert(pow128(8) == 0x100_0000_0000_0000);
    assert(pow128(9) == 0x8000_0000_0000_0000);
    assert(pow128(10) == 0x40_0000_0000_0000_0000);
}

proof fn lemma_pow128_bounds(k: nat)
    requires
        k <= 10,
    ensures
        1 <= pow128(k),
        pow128(k) <= 0x40_0000_0000_0000_0000,
        k <= 9 ==> pow128(k) <= 0x8000_0000_0000_0000,
{
    lemma_pow128_pos(k);
    lemma_pow128_mono(k, 10);
    lemma_pow128_values();
    if k <= 9 {
        lemma_pow128_mono(k, 9);
    }
}

/// Read the variable-width integer at `start`. Its exact value comes back —
/// wire integers of up to ten bytes always fit the result type — together
/// with the position after it.
fn parse_varint(data: &[u8], start: usize) -> (r: Option<(u128, usize)>)
    requires
        start <= data@.len(),
    ensures
        match r {
            Some(p) => {
                &&& vint_len(data@.skip(start as int)) == Some(p.1 - start as int)
                &&& start < p.1 <= data@.len()
                &&& p.0 as nat == vint_value(data@.skip(start as int))
            },
            None => vint_len(data@.skip(start as int)) is None,
        },
{
    let ghost whole = data@.skip(start as int);
    let mut i: usize = start;
    let mut value: u128 = 0;
    let mut mult: u128 = 1;
    loop
        invariant
            start <= i <= data@.len(),
            i - start <= 10,
            mult == pow128((i - start) as nat),
            value < mult,
            whole == data@.skip(start as int),
            forall|j: int| start <= j < i ==> data@[j] >= 0x80,
            vint_value(whole) == value + mult * vint_value(data@.skip(i as int)),
            match vint_len(data@.skip(i as int)) {
                None => vint_len(whole) is None,
                Some(n) => vint_len(whole) == if n + i - start <= 10 {
                    Some(n + i - start)
                } else {
                    None::<int>
                },
            },
        decreases data@.len() - i,
    {
        proof {
            lemma_pow128_bounds((i - start) as nat);
        }
        if i == data.len() {
            // the integer runs past the end
            return None;
        }
        if i - start == 10 {
            // over ten continuation bytes
            proof {
                lemma_vint_len_bounds(data@.skip(i as int));
            }
            return None;
        }
        let b = data[i];
        proof {
            assert(data@.skip(i as int)[0] == data@[i as int]);
            assert(data@.skip(i as int).drop_first() =~= data@.skip(i as int + 1));
        }
        if b < 0x80 {
            proof {
                assert(vint_value(data@.skip(i as int)) == b as nat);
                assert(vint_len(data@.skip(i as int)) == Some(1int));
                assert(value + mult * (b as nat) < mult * 128) by (nonlinear_arith)
                    requires
                        value < mult,
                        b < 0x80,
                        0 < mult,
                ;
                assert(mult * 128 == pow128(((i - start) + 1) as nat));
                lemma_pow128_bounds(((i - start) + 1) as nat);
            }
            let v = value + mult * (b as u128);
            return Some((v, i + 1));
        }
        proof {
            let c = (b - 0x80) as nat;
            let restv = vint_value(data@.skip(i as int + 1));
            assert(vint_value(data@.skip(i as int)) == c + 0x80 * restv);
            assert(value + mult * (c + 0x80 * restv) == (value + mult * c) + (mult * 0x80)
                * restv) by (nonlinear_arith);
            assert(value + mult * c < mult * 128) by (nonlinear_arith)
                requires
                    value < mult,
                    c < 0x80,
                    0 < mult,
            ;
            assert(mult * 128 == pow128(((i - start) + 1) as nat));
            lemma_pow128_bounds(((i - start) + 1) as nat);
        }
        value = value + mult * ((b - 0x80) as u128);
        mult = mult * 128;
        i = i + 1;
    }
}

/// What the executable scan has gathered, seen abstractly.
pub open spec fn candidate_view(o: Option<Vec<u8>>) -> Option<Seq<u8>> {
    match o {
        Some(v) => Some(v@),
        None => None,
    }
}

/// Relies on `String::from_utf8` of std: it accepts exactly the byte
/// sequences that are valid UTF-8, and the returned string's characters
/// encode back to the given bytes.
#[verifier::external_body]
fn string_from_utf8(bytes: Vec<u8>) -> (r: Option<String>)
    ensures
        r is Some <==> valid_utf8(bytes@),
        r is Some ==> encode_utf8(r->0@) == bytes@,
{
    String::from_utf8(bytes).ok()
}

/// Decode the acknowledgement payload: the address of the newly created
/// contract, or `None` where the payload does not carry one.
pub fn decode_instantiate_address(data: &[u8]) -> (r: Option<String>)
    ensures
        r is Some <==> spec_decode_address(data@) is Some,
        r is Some ==> r->0@ == spec_decode_address(data@)->0,
{
    let mut candidate: Option<Vec<u8>> = None;
    let mut i: usize = 0;
    proof {
        assert(data@.skip(0) =~= data@);
    }
    loop
        invariant
            i <= data@.len(),
            scan_fields(data@, None) == scan_fields(
                data@.skip(i as int),
                candidate_view(candidate),
            ),
        ensures
            i == data@.len(),
        decreases data@.len() - i,
    {
        if i == data.len() {
            break;
        }
        let ghost suffix = data@.skip(i as int);
        let (tag, after_tag) = match parse_varint(data, i) {
            Some(p) => p,
            None => {
                return None;
            },
        };
        proof {
            assert(suffix.skip(after_tag - i as int) =~= data@.skip(after_tag as int));
        }
        if tag >= 0x1_0000_0000_0000_0000u128 {
            return None;
        }
        let field: u128 = tag / 8;
        let wire: u128 = tag % 8;
        if field == 0 {
            return None;
        }
        if wire == 0 {
            if field == 1 {
                return None;
            }
            let (v, after_v) = match parse_varint(data, after_tag) {
                Some(p) => p,
                None => {
                    return None;
                },
            };
            if v >= 0x1_0000_0000_0000_0000u128 {
                return None;
            }
            proof {
                assert(data@.skip(after_tag as int).skip(after_v - after_tag as int) =~= data@.skip(
                    after_v as int,
                ));
            }
            i = after_v;
        } else if wire == 1 {
            if field == 1 || data.len() - after_tag < 8 {
                return None;
            }
            proof {
                assert(data@.skip(after_tag as int).skip(8) =~= data@.skip(after_tag as int + 8));
            }
            i = after_tag + 8;
        } else if wire == 2 {
            let (l, after_len) = match parse_varint(data, after_tag) {
                Some(p) => p,
                None => {
                    return None;
                },
            };
            let rem = data.len() - after_len;
            if l > rem as u128 {
                proof {
                    assert(after_len - after_tag as int + vint_value(data@.skip(after_tag as int))
                        > data@.skip(after_tag as int).len());
                }
                return None;
            }
            let l_small = l as usize;
            let end = after_len + l_small;
            let payload = vstd::slice::slice_subrange(data, after_len, end);
            let payload_vec = vstd::slice::slice_to_vec(payload);
            proof {
                let rest = data@.skip(after_tag as int);
                let ll = after_len - after_tag as int;
                assert(rest.subrange(ll, ll + l as int) =~= data@.subrange(
                    after_len as int,
                    end as int,
                ));
                assert(rest.skip(ll + l as int) =~= data@.skip(end as int));
            }
            if field == 1 {
                candidate = Some(payload_vec);
            }
            i = end;
        } else if wire == 5 {
            if field == 1 || data.len() - after_tag < 4 {
                return None;
            }
            proof {
                assert(data@.skip(after_tag as int).skip(4) =~= data@.skip(after_tag as int + 4));
            }
            i = after_tag + 4;
        } else {
            return None;
        }
    }
    proof {
        assert(data@.skip(i as int) =~= Seq::<u8>::empty());
    }
    match candidate {
        None => None,
        Some(bytes) => {
            if bytes.len() == 0 {
                return None;
            }
            match string_from_utf8(bytes) {
                Some(s) => {
                    proof {
                        encode_utf8_decode_utf8(s@);
                    }
                    Some(s)
                },
                None => None,
            }
        },
    }
}

// ---------------------------------------------------------------------------
// The canonical encoding, and the proof that the decoder accepts it. The
// host produces the acknowledgements; the encoder here lets a caller build
// the payload a well-behaved host would send, and the round-trip lemmas
// show the decoder complete for such payloads.
// ---------------------------------------------------------------------------

/// The canonical encoding of a wire integer: low seven-bit groups first,
/// the high bit marking continuation.
pub open spec fn spec_encode_varint(n: nat) -> Seq<u8>
    decreases n,
{
    if n < 0x80 {
        seq![n as u8]
    } else {
        seq![(0x80 + n % 0x80) as u8] + spec_encode_varint(n / 0x80)
    }
}

/// The canonical acknowledgement carrying `addr` as its field 1.
pub open spec fn spec_encode_response(addr: Seq<u8>) -> Seq<u8> {
    seq![0x0au8] + spec_encode_varint(addr.len()) + addr
}

/// A value below 128 to the `k`th encodes in at most `k` bytes.
proof fn lemma_encode_varint_len(n: nat, k: nat)
    requires
        1 <= k,
        n < pow128(k),
    ensures
        1 <= spec_encode_varint(n).len() <= k,
    decreases k,
{
    if n >= 0x80 {
        assert(pow128(k) == 128 * pow128((k - 1) as nat));
        assert(n / 0x80 < pow128((k - 1) as nat)) by (nonlinear_arith)
            requires
                n < 128 * pow128((k - 1) as nat),
        ;
        lemma_encode_varint_len(n / 0x80, (k - 1) as nat);
    }
}

/// The canonical encoding of a value within the wire limit is read back as
/// itself, whatever bytes follow it.
pub proof fn lemma_varint_roundtrip(n: nat, tail: Seq<u8>)
    requires
        n < wire_integer_limit(),
    ensures
        vint_len(spec_encode_varint(n) + tail) == Some(spec_encode_varint(n).len() as int),
        vint_value(spec_encode_varint(n) + tail) == n,
    decreases n,
{
    let e = spec_encode_varint(n);
    if n < 0x80 {
        assert((e + tail)[0] == n as u8);
        assert((e + tail).len() > 0);
    } else {
        lemma_varint_roundtrip(n / 0x80, tail);
        let inner = spec_encode_varint(n / 0x80);
        assert((e + tail)[0] == (0x80 + n % 0x80) as u8);
        assert((e + tail).drop_first() =~= inner + tail);
        lemma_pow128_values();
        assert(n / 0x80 < pow128(9)) by (nonlinear_arith)
            requires
                n < 0x1_0000_0000_0000_0000,
                pow128(9) == 0x8000_0000_0000_0000,
        ;
        lemma_encode_varint_len(n / 0x80, 9);
        assert(vint_len(e + tail) == Some(inner.len() as int + 1));
        assert(vint_value(e + tail) == (n % 0x80) + 0x80 * (n / 0x80));
    }
}

/// A canonical acknowledgement decodes to exactly its address.
pub proof fn lemma_decode_encode_response(addr: Seq<u8>)
    requires
        0 < addr.len() < wire_integer_limit(),
        valid_utf8(addr),
    ensures
        spec_decode_address(spec_encode_response(addr)) == Some(decode_utf8(addr)),
{
    let data = spec_encode_response(addr);
    let el = spec_encode_varint(addr.len());
    let rest = data.skip(1);
    assert(data[0] == 0x0au8);
    assert(data.len() > 0);
    assert(vint_len(data) == Some(1int));
    assert(vint_value(data) == 10);
    assert(rest =~= el + addr);
    lemma_varint_roundtrip(addr.len(), addr);
    let ll = el.len() as int;
    assert(vint_len(rest) == Some(ll));
    assert(vint_value(rest) == addr.len());
    assert(rest.subrange(ll, ll + addr.len()) =~= addr);
    assert(rest.skip(ll + addr.len()) =~= Seq::<u8>::empty());
    assert(scan_fields(rest.skip(ll + addr.len()), Some(addr)) == Some(Some(addr)));
    assert(scan_fields(data, None) == Some(Some(addr)));
}

/// Encoding an acknowledgement for an address and decoding it gives the
/// address back.
pub proof fn lemma_response_roundtrip(address: Seq<char>)
    requires
        0 < encode_utf8(address).len() < wire_integer_limit(),
    ensures
        spec_decode_address(spec_encode_response(encode_utf8(address))) == Some(address),
{
    encode_utf8_valid_utf8(address);
    lemma_decode_encode_response(encode_utf8(address));
    encode_utf8_decode_utf8(address);
}

/// Build the acknowledgement payload a well-behaved host would send for a
/// newly created contract at `address`.
pub fn encode_instantiate_response(address: &str) -> (r: Vec<u8>)
    ensures
        r@ == spec_encode_response(address.spec_bytes()),
{
    let bytes: &[u8] = address.as_bytes();
    let ghost n0: nat = bytes@.len();
    let mut out: Vec<u8> = Vec::new();
    out.push(0x0a);
    proof {
        assert(out@ =~= seq![0x0au8]);
    }
    let mut n: usize = bytes.len();
    while n >= 0x80
        invariant
            out@ + spec_encode_varint(n as nat) == seq![0x0au8] + spec_encode_varint(n0),
        decreases n,
    {
        let ghost n_old: nat = n as nat;
        let ghost out_old: Seq<u8> = out@;
        let b: u8 = ((n % 0x80) + 0x80) as u8;
        out.push(b);
        n = n / 0x80;
        proof {
            assert(spec_encode_varint(n_old) == seq![b] + spec_encode_varint(n as nat));
            assert(out_old.push(b) + spec_encode_varint(n as nat) =~= out_old + (seq![b]
                + spec_encode_varint(n as nat)));
        }
    }
    let ghost out_before: Seq<u8> = out@;
    out.push(n as u8);
    proof {
        assert(spec_encode_varint(n as nat) == seq![n as u8]);
        assert(out_before.push(n as u8) =~= out_before + seq![n as u8]);
        assert(out@ =~= seq![0x0au8] + spec_encode_varint(n0));
    }
    let ghost header: Seq<u8> = out@;
    let mut j: usize = 0;
    while j < bytes.len()
        invariant
            j <= bytes@.len(),
            out@ == header + bytes@.take(j as int),
            header == seq![0x0au8] + spec_encode_varint(n0),
            n0 == bytes@.len(),
        decreases bytes@.len() - j,
    {
        let ghost out_old: Seq<u8> = out@;
        out.push(bytes[j]);
        j = j + 1;
        proof {
            assert(out_old.push(bytes@[j - 1]) =~= header + bytes@.take(j as int));
        }
    }
    proof {
        assert(bytes@.take(bytes@.len() as int) =~= bytes@);
        assert(out@ =~= spec_encode_response(address.spec_bytes()));
    }
    out
}

} // verus!
