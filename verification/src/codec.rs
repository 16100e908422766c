//! Base64 transcoding (standard alphabet, `=`-padded, unchunked), written
//! here because the notifier's raw-message format carries its attachment
//! base64-encoded and the library proves that this transcoding is lossless.

use vstd::prelude::*;

verus! {

/// The `=` padding byte.
pub open spec fn pad_byte() -> u8 {
    61u8
}

/// Maps a 6-bit value to its byte in the standard base64 alphabet
/// (`A`-`Z`, `a`-`z`, `0`-`9`, `+`, `/`).
pub open spec fn b64_char(v: u8) -> u8
    recommends
        v < 64,
{
    if v < 26 {
        (65 + v) as u8
    } else if v < 52 {
        (71 + v) as u8
    } else if v < 62 {
        (v - 4) as u8
    } else if v == 62 {
        43u8
    } else {
        47u8
    }
}

/// Maps an alphabet byte back to its 6-bit value; `None` off the alphabet.
pub open spec fn b64_value(c: u8) -> Option<u8> {
    if 65 <= c && c <= 90 {
        Some((c - 65) as u8)
    } else if 97 <= c && c <= 122 {
        Some((c - 71) as u8)
    } else if 48 <= c && c <= 57 {
        Some((c + 4) as u8)
    } else if c == 43 {
        Some(62u8)
    } else if c == 47 {
        Some(63u8)
    } else {
        None
    }
}

/// The four alphabet bytes that encode one full three-byte group.
pub open spec fn encode_group(b0: u8, b1: u8, b2: u8) -> Seq<u8> {
    seq![
        b64_char(b0 >> 2),
        b64_char(((b0 & 3) << 4) | (b1 >> 4)),
        b64_char(((b1 & 15) << 2) | (b2 >> 6)),
        b64_char(b2 & 63),
    ]
}

/// Standard base64 encoding of a byte sequence: full groups of three,
/// then a padded tail of one or two bytes if any remain.
pub open spec fn b64_encode(s: Seq<u8>) -> Seq<u8>
    decreases s.len(),
{
    if s.len() == 0 {
        Seq::empty()
    } else if s.len() == 1 {
        seq![
            b64_char(s[0] >> 2),
            b64_char((s[0] & 3) << 4),
            pad_byte(),
            pad_byte(),
        ]
    } else if s.len() == 2 {
        seq![
            b64_char(s[0] >> 2),
            b64_char(((s[0] & 3) << 4) | (s[1] >> 4)),
            b64_char((s[1] & 15) << 2),
            pad_byte(),
        ]
    } else {
        encode_group(s[0], s[1], s[2]) + b64_encode(s.skip(3))
    }
}

/// Decodes a final four-byte group, which may carry `=` padding. Strict:
/// non-canonical padding (stray bits below the used ones) is rejected.
pub open spec fn decode_tail_group(a: u8, b: u8, c: u8, d: u8) -> Option<Seq<u8>> {
    match (b64_value(a), b64_value(b)) {
        (Some(va), Some(vb)) => {
            if c == pad_byte() && d == pad_byte() {
                if vb & 15 == 0 {
                    Some(seq![((va << 2) | (vb >> 4)) as u8])
                } else {
                    None
                }
            } else if d == pad_byte() {
                match b64_value(c) {
                    Some(vc) => if vc & 3 == 0 {
                        Some(seq![((va << 2) | (vb >> 4)) as u8, (((vb & 15) << 4) | (vc >> 2)) as u8])
                    } else {
                        None
                    },
                    None => None,
                }
            } else {
                match (b64_value(c), b64_value(d)) {
                    (Some(vc), Some(vd)) => Some(
                        seq![
                            ((va << 2) | (vb >> 4)) as u8,
                            (((vb & 15) << 4) | (vc >> 2)) as u8,
                            (((vc & 3) << 6) | vd) as u8,
                        ],
                    ),
                    _ => None,
                }
            }
        },
        _ => None,
    }
}

/// Standard base64 decoding. `None` on any input that canonical encoding
/// cannot produce: a length that is not a multiple of four, a byte off the
/// alphabet, padding before the final group, or non-canonical padding.
pub open spec fn b64_decode(s: Seq<u8>) -> Option<Seq<u8>>
    decreases s.len(),
{
    if s.len() == 0 {
        Some(Seq::empty())
    } else if s.len() < 4 {
        None
    } else if s.len() == 4 {
        decode_tail_group(s[0], s[1], s[2], s[3])
    } else {
        match (b64_value(s[0]), b64_value(s[1]), b64_value(s[2]), b64_value(s[3])) {
            (Some(va), Some(vb), Some(vc), Some(vd)) => match b64_decode(s.skip(4)) {
                Some(rest) => Some(
                    seq![
                        ((va << 2) | (vb >> 4)) as u8,
                        (((vb & 15) << 4) | (vc >> 2)) as u8,
                        (((vc & 3) << 6) | vd) as u8,
                    ] + rest,
                ),
                None => None,
            },
            _ => None,
        }
    }
}

/// The alphabet map and its inverse cancel: every 6-bit value comes back
/// from its alphabet byte, and no alphabet byte is the padding byte.
proof fn lemma_char_value(v: u8)
    requires
        v < 64,
    ensures
        b64_value(b64_char(v)) == Some(v),
        b64_char(v) != pad_byte(),
        b64_char(v) != 13u8,
        b64_char(v) != 10u8,
{
}

/// The two bytes of a one-byte tail decode back to that byte.
proof fn lemma_tail1_bits(b0: u8)
    by (bit_vector)
    ensures
        b0 >> 2 < 64,
        (b0 & 3) << 4 < 64,
        ((b0 & 3) << 4) & 15 == 0,
        ((b0 >> 2) << 2) | (((b0 & 3) << 4) >> 4) == b0,
{
}

/// The three bytes of a two-byte tail decode back to those bytes.
proof fn lemma_tail2_bits(b0: u8, b1: u8)
    by (bit_vector)
    ensures
        b0 >> 2 < 64,
        ((b0 & 3) << 4) | (b1 >> 4) < 64,
        (b1 & 15) << 2 < 64,
        ((b1 & 15) << 2) & 3 == 0,
        ((b0 >> 2) << 2) | ((((b0 & 3) << 4) | (b1 >> 4)) >> 4) == b0,
        (((((b0 & 3) << 4) | (b1 >> 4)) & 15) << 4) | (((b1 & 15) << 2) >> 2) == b1,
{
}

/// The four values of a full group decode back to its three bytes.
proof fn lemma_group_bits(b0: u8, b1: u8, b2: u8)
    by (bit_vector)
    ensures
        b0 >> 2 < 64,
        ((b0 & 3) << 4) | (b1 >> 4) < 64,
        ((b1 & 15) << 2) | (b2 >> 6) < 64,
        b2 & 63 < 64,
        ((b0 >> 2) << 2) | ((((b0 & 3) << 4) | (b1 >> 4)) >> 4) == b0,
        (((((b0 & 3) << 4) | (b1 >> 4)) & 15) << 4) | (((((b1 & 15) << 2) | (b2 >> 6))) >> 2) == b1,
        ((((((b1 & 15) << 2) | (b2 >> 6))) & 3) << 6) | (b2 & 63) == b2,
{
}

/// Encoding yields four output bytes for every started group of three
/// input bytes; in particular a nonempty input encodes to at least four
/// bytes and an empty one to none.
pub proof fn lemma_encode_len(s: Seq<u8>)
    ensures
        b64_encode(s).len() == 4 * ((s.len() + 2) / 3),
    decreases s.len(),
{
    if s.len() >= 3 {
        lemma_encode_len(s.skip(3));
    }
}

/// Base64 transcoding is lossless: decoding an encoded sequence yields
/// exactly the original bytes.
pub proof fn lemma_round_trip(s: Seq<u8>)
    ensures
        b64_decode(b64_encode(s)) == Some(s),
    decreases s.len(),
{
    if s.len() == 0 {
        assert(b64_encode(s) =~= Seq::<u8>::empty());
        assert(b64_decode(b64_encode(s)) == Some(s)) by {
            assert(s =~= Seq::<u8>::empty());
        }
    } else if s.len() == 1 {
        lemma_tail1_bits(s[0]);
        lemma_char_value(s[0] >> 2);
        lemma_char_value((s[0] & 3) << 4);
        assert(b64_decode(b64_encode(s)) == Some(s)) by {
            assert(b64_decode(b64_encode(s)).unwrap() =~= s);
        }
    } else if s.len() == 2 {
        lemma_tail2_bits(s[0], s[1]);
        lemma_char_value(s[0] >> 2);
        lemma_char_value(((s[0] & 3) << 4) | (s[1] >> 4));
        lemma_char_value((s[1] & 15) << 2);
        assert(b64_decode(b64_encode(s)) == Some(s)) by {
            assert(b64_decode(b64_encode(s)).unwrap() =~= s);
        }
    } else {
        let g = encode_group(s[0], s[1], s[2]);
        let rest = b64_encode(s.skip(3));
        lemma_group_bits(s[0], s[1], s[2]);
        lemma_char_value(s[0] >> 2);
        lemma_char_value(((s[0] & 3) << 4) | (s[1] >> 4));
        lemma_char_value(((s[1] & 15) << 2) | (s[2] >> 6));
        lemma_char_value(s[2] & 63);
        lemma_round_trip(s.skip(3));
        lemma_encode_len(s.skip(3));
        assert(b64_encode(s) == g + rest);
        if s.len() == 3 {
            assert(rest =~= Seq::<u8>::empty());
            assert(b64_encode(s) =~= g);
            assert(b64_decode(g) == decode_tail_group(g[0], g[1], g[2], g[3]));
            assert(b64_decode(b64_encode(s)) == Some(s)) by {
                assert(b64_decode(b64_encode(s)).unwrap() =~= s);
            }
        } else {
            assert((g + rest).len() > 4);
            assert((g + rest).skip(4) =~= rest);
            assert(b64_decode(b64_encode(s)) == Some(s)) by {
                assert(s.skip(3)[0] == s[3]);
                assert(b64_decode(b64_encode(s)).unwrap() =~= seq![s[0], s[1], s[2]] + s.skip(3));
                assert(seq![s[0], s[1], s[2]] + s.skip(3) =~= s);
            }
        }
    }
}

/// Maps a 6-bit value to its alphabet byte.
fn enc_char(v: u8) -> (r: u8)
    requires
        v < 64,
    ensures
        r == b64_char(v),
{
    if v < 26 {
        65 + v
    } else if v < 52 {
        71 + v
    } else if v < 62 {
        v - 4
    } else if v == 62 {
        43
    } else {
        47
    }
}

/// Maps an alphabet byte back to its 6-bit value; `None` off the alphabet.
fn dec_value(c: u8) -> (r: Option<u8>)
    ensures
        r == b64_value(c),
{
    if 65 <= c && c <= 90 {
        Some(c - 65)
    } else if 97 <= c && c <= 122 {
        Some(c - 71)
    } else if 48 <= c && c <= 57 {
        Some(c + 4)
    } else if c == 43 {
        Some(62)
    } else if c == 47 {
        Some(63)
    } else {
        None
    }
}

/// Base64-encodes a byte vector with the standard padded alphabet.
pub fn encode(input: &Vec<u8>) -> (r: Vec<u8>)
    ensures
        r@ == b64_encode(input@),
{
    let n = input.len();
    let mut out: Vec<u8> = Vec::new();
    let mut i: usize = 0;
    proof {
        assert(input@.skip(0) =~= input@);
        assert(out@ + b64_encode(input@) =~= b64_encode(input@));
    }
    while n - i >= 3
        invariant
            i <= n,
            n == input@.len(),
            b64_encode(input@) == out@ + b64_encode(input@.skip(i as int)),
        decreases n - i,
    {
        let ghost prev = out@;
        let b0 = input[i];
        let b1 = input[i + 1];
        let b2 = input[i + 2];
        proof {
            lemma_group_bits(b0, b1, b2);
            assert(input@.skip(i as int)[0] == b0);
            assert(input@.skip(i as int)[1] == b1);
            assert(input@.skip(i as int)[2] == b2);
            assert(input@.skip(i as int).skip(3) =~= input@.skip(i + 3));
        }
        out.push(enc_char(b0 >> 2));
        out.push(enc_char(((b0 & 3) << 4) | (b1 >> 4)));
        out.push(enc_char(((b1 & 15) << 2) | (b2 >> 6)));
        out.push(enc_char(b2 & 63));
        proof {
            assert(out@ =~= prev + encode_group(b0, b1, b2));
            assert(prev + (encode_group(b0, b1, b2) + b64_encode(input@.skip(i + 3))) =~= (prev
                + encode_group(b0, b1, b2)) + b64_encode(input@.skip(i + 3)));
        }
        i = i + 3;
    }
    let ghost prev = out@;
    if n - i == 1 {
        let b0 = input[i];
        proof {
            lemma_tail1_bits(b0);
            assert(input@.skip(i as int) =~= seq![b0]);
        }
        out.push(enc_char(b0 >> 2));
        out.push(enc_char((b0 & 3) << 4));
        out.push(61);
        out.push(61);
        proof {
            assert(out@ =~= prev + b64_encode(input@.skip(i as int)));
        }
    } else if n - i == 2 {
        let b0 = input[i];
        let b1 = input[i + 1];
        proof {
            lemma_tail2_bits(b0, b1);
            assert(input@.skip(i as int) =~= seq![b0, b1]);
        }
        out.push(enc_char(b0 >> 2));
        out.push(enc_char(((b0 & 3) << 4) | (b1 >> 4)));
        out.push(enc_char((b1 & 15) << 2));
        out.push(61);
        proof {
            assert(out@ =~= prev + b64_encode(input@.skip(i as int)));
        }
    } else {
        proof {
            assert(input@.skip(i as int) =~= Seq::<u8>::empty());
            assert(out@ =~= prev + b64_encode(input@.skip(i as int)));
        }
    }
    proof {
        assert(b64_encode(input@) =~= out@);
    }
    out
}

/// Base64-decodes a byte vector; `None` exactly where no canonical
/// encoding produces the input.
pub fn decode(input: &Vec<u8>) -> (r: Option<Vec<u8>>)
    ensures
        match r {
            Some(v) => b64_decode(input@) == Some(v@),
            None => b64_decode(input@) is None,
        },
{
    let n = input.len();
    if n % 4 != 0 {
        proof {
            lemma_decode_bad_len(input@);
        }
        return None;
    }
    let mut out: Vec<u8> = Vec::new();
    let mut i: usize = 0;
    proof {
        assert(input@.skip(0) =~= input@);
        assert(forall|t: Seq<u8>| #![auto] Seq::<u8>::empty() + t =~= t);
    }
    while n - i > 4
        invariant
            i <= n,
            n % 4 == 0,
            i % 4 == 0,
            n == input@.len(),
            forall|t: Seq<u8>|
                b64_decode(input@.skip(i as int)) == Some(t) ==> b64_decode(input@) == Some(
                    out@ + t,
                ),
            b64_decode(input@.skip(i as int)) is None ==> b64_decode(input@) is None,
        decreases n - i,
    {
        let ghost prev = out@;
        let a = input[i];
        let b = input[i + 1];
        let c = input[i + 2];
        let d = input[i + 3];
        proof {
            assert(input@.skip(i as int).len() > 4);
            assert(input@.skip(i as int)[0] == a);
            assert(input@.skip(i as int)[1] == b);
            assert(input@.skip(i as int)[2] == c);
            assert(input@.skip(i as int)[3] == d);
            assert(input@.skip(i as int).skip(4) =~= input@.skip(i + 4));
        }
        let va = dec_value(a);
        let vb = dec_value(b);
        let vc = dec_value(c);
        let vd = dec_value(d);
        match (va, vb, vc, vd) {
            (Some(va), Some(vb), Some(vc), Some(vd)) => {
                out.push((va << 2) | (vb >> 4));
                out.push(((vb & 15) << 4) | (vc >> 2));
                out.push(((vc & 3) << 6) | vd);
                proof {
                    let g = seq![
                        ((va << 2) | (vb >> 4)) as u8,
                        (((vb & 15) << 4) | (vc >> 2)) as u8,
                        (((vc & 3) << 6) | vd) as u8,
                    ];
                    assert(out@ =~= prev + g);
                    assert(forall|t: Seq<u8>|
                        b64_decode(input@.skip(i + 4)) == Some(t) ==> b64_decode(
                            input@.skip(i as int),
                        ) == Some(g + t));
                    assert(forall|t: Seq<u8>| prev + (g + t) =~= (prev + g) + t);
                }
            },
            _ => {
                proof {
                    assert(b64_decode(input@.skip(i as int)) is None);
                }
                return None;
            },
        }
        i = i + 4;
    }
    let ghost prev = out@;
    if n - i == 4 {
        let a = input[i];
        let b = input[i + 1];
        let c = input[i + 2];
        let d = input[i + 3];
        proof {
            assert(input@.skip(i as int) =~= seq![a, b, c, d]);
            assert(b64_decode(input@.skip(i as int)) == decode_tail_group(a, b, c, d));
        }
        let va = dec_value(a);
        let vb = dec_value(b);
        match (va, vb) {
            (Some(va), Some(vb)) => {
                if c == 61 && d == 61 {
                    if vb & 15 == 0 {
                        out.push((va << 2) | (vb >> 4));
                        proof {
                            assert(out@ =~= prev + seq![((va << 2) | (vb >> 4)) as u8]);
                        }
                    } else {
                        return None;
                    }
                } else if d == 61 {
                    match dec_value(c) {
                        Some(vc) => {
                            if vc & 3 == 0 {
                                out.push((va << 2) | (vb >> 4));
                                out.push(((vb & 15) << 4) | (vc >> 2));
                                proof {
                                    assert(out@ =~= prev + seq![
                                        ((va << 2) | (vb >> 4)) as u8,
                                        (((vb & 15) << 4) | (vc >> 2)) as u8,
                                    ]);
                                }
                            } else {
                                return None;
                            }
                        },
                        None => {
                            return None;
                        },
                    }
                } else {
                    match (dec_value(c), dec_value(d)) {
                        (Some(vc), Some(vd)) => {
                            out.push((va << 2) | (vb >> 4));
                            out.push(((vb & 15) << 4) | (vc >> 2));
                            out.push(((vc & 3) << 6) | vd);
                            proof {
                                assert(out@ =~= prev + seq![
                                    ((va << 2) | (vb >> 4)) as u8,
                                    (((vb & 15) << 4) | (vc >> 2)) as u8,
                                    (((vc & 3) << 6) | vd) as u8,
                                ]);
                            }
                        },
                        _ => {
                            return None;
                        },
                    }
                }
            },
            _ => {
                return None;
            },
        }
    } else {
        proof {
            assert(input@.skip(i as int) =~= Seq::<u8>::empty());
            assert(out@ =~= prev + Seq::<u8>::empty());
        }
    }
    Some(out)
}

/// A length that is not a multiple of four decodes to `None`.
proof fn lemma_decode_bad_len(s: Seq<u8>)
    requires
        s.len() % 4 != 0,
    ensures
        b64_decode(s) is None,
    decreases s.len(),
{
    if s.len() > 4 {
        lemma_decode_bad_len(s.skip(4));
    }
}

} // verus!
