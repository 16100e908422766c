//! The raw MIME message of one notification: a fixed set of header lines,
//! a blank line, and the attachment base64-encoded as the single inline
//! body part; and the reader that recovers the attachment bytes from a
//! raw message, proved to invert the builder.

use crate::codec::{b64_decode, b64_encode, decode, encode, lemma_round_trip};
use vstd::prelude::*;

verus! {

/// A byte sequence is header-safe when it contains neither carriage
/// return nor line feed, so that a MIME header line holding it cannot
/// open a new line.
pub open spec fn header_safe(s: Seq<u8>) -> bool {
    forall|i: int| 0 <= i < s.len() ==> s[i] != 13u8 && s[i] != 10u8
}

/// The two line-ending bytes of a header line.
pub open spec fn crlf() -> Seq<u8> {
    seq![13u8, 10u8]
}

/// The bytes of `To: `: the label of the recipient header line.
pub open spec fn to_label() -> Seq<u8> {
    seq!['T' as u8, 'o' as u8, ':' as u8, ' ' as u8]
}

/// The bytes of `From: `: the label of the sender header line.
pub open spec fn from_label() -> Seq<u8> {
    seq!['F' as u8, 'r' as u8, 'o' as u8, 'm' as u8, ':' as u8, ' ' as u8]
}

/// The bytes of `Subject: `: the label of the subject header line.
pub open spec fn subject_label() -> Seq<u8> {
    seq!['S' as u8, 'u' as u8, 'b' as u8, 'j' as u8, 'e' as u8, 'c' as u8, 't' as u8, ':' as u8, ' ' as u8]
}

/// The bytes of `MIME-Version: 1.0`: the MIME version header line.
pub open spec fn mime_text() -> Seq<u8> {
    seq!['M' as u8, 'I' as u8, 'M' as u8, 'E' as u8, '-' as u8, 'V' as u8, 'e' as u8, 'r' as u8, 's' as u8, 'i' as u8, 'o' as u8, 'n' as u8, ':' as u8, ' ' as u8, '1' as u8, '.' as u8, '0' as u8]
}

/// The bytes of `Content-Type: image/gif`: the content type of the single inline part.
pub open spec fn type_text() -> Seq<u8> {
    seq!['C' as u8, 'o' as u8, 'n' as u8, 't' as u8, 'e' as u8, 'n' as u8, 't' as u8, '-' as u8, 'T' as u8, 'y' as u8, 'p' as u8, 'e' as u8, ':' as u8, ' ' as u8, 'i' as u8, 'm' as u8, 'a' as u8, 'g' as u8, 'e' as u8, '/' as u8, 'g' as u8, 'i' as u8, 'f' as u8]
}

/// The bytes of `Content-Disposition: inline`: the disposition of the single inline part.
pub open spec fn disposition_text() -> Seq<u8> {
    seq!['C' as u8, 'o' as u8, 'n' as u8, 't' as u8, 'e' as u8, 'n' as u8, 't' as u8, '-' as u8, 'D' as u8, 'i' as u8, 's' as u8, 'p' as u8, 'o' as u8, 's' as u8, 'i' as u8, 't' as u8, 'i' as u8, 'o' as u8, 'n' as u8, ':' as u8, ' ' as u8, 'i' as u8, 'n' as u8, 'l' as u8, 'i' as u8, 'n' as u8, 'e' as u8]
}

/// The bytes of `Content-Transfer-Encoding: base64`: the transfer encoding of the single inline part.
pub open spec fn encoding_text() -> Seq<u8> {
    seq!['C' as u8, 'o' as u8, 'n' as u8, 't' as u8, 'e' as u8, 'n' as u8, 't' as u8, '-' as u8, 'T' as u8, 'r' as u8, 'a' as u8, 'n' as u8, 's' as u8, 'f' as u8, 'e' as u8, 'r' as u8, '-' as u8, 'E' as u8, 'n' as u8, 'c' as u8, 'o' as u8, 'd' as u8, 'i' as u8, 'n' as u8, 'g' as u8, ':' as u8, ' ' as u8, 'b' as u8, 'a' as u8, 's' as u8, 'e' as u8, '6' as u8, '4' as u8]
}

/// The bytes of `Dilbert for `: the fixed prefix of the subject line.
pub open spec fn subject_prefix() -> Seq<u8> {
    seq!['D' as u8, 'i' as u8, 'l' as u8, 'b' as u8, 'e' as u8, 'r' as u8, 't' as u8, ' ' as u8, 'f' as u8, 'o' as u8, 'r' as u8, ' ' as u8]
}

/// The header block: the three addressed lines, the four fixed lines,
/// and the blank line that separates the headers from the body.
pub open spec fn message_headers(to: Seq<u8>, from: Seq<u8>, subject: Seq<u8>) -> Seq<u8> {
    to_label() + to + crlf() + from_label() + from + crlf() + subject_label() + subject + crlf()
        + mime_text() + crlf() + type_text() + crlf() + disposition_text() + crlf()
        + encoding_text() + crlf() + crlf()
}

/// The whole raw message: headers, blank line, base64-encoded attachment.
pub open spec fn message_bytes(to: Seq<u8>, from: Seq<u8>, subject: Seq<u8>, attachment: Seq<u8>) -> Seq<u8> {
    message_headers(to, from, subject) + b64_encode(attachment)
}

/// A blank line (the end of the header block) stands at position `p`.
pub open spec fn blank_at(s: Seq<u8>, p: int) -> bool {
    s[p] == 13u8 && s[p + 1] == 10u8 && s[p + 2] == 13u8 && s[p + 3] == 10u8
}

/// The attachment bytes a raw message carries: the base64 decoding of
/// everything after the first blank line; `None` without a blank line or
/// when that decoding fails.
pub open spec fn attachment_of(s: Seq<u8>) -> Option<Seq<u8>>
    decreases s.len(),
{
    if s.len() < 4 {
        None
    } else if blank_at(s, 0) {
        b64_decode(s.skip(4))
    } else {
        attachment_of(s.skip(1))
    }
}

/// Scanning for the first blank line passes over any prefix without one.
proof fn lemma_scan(s: Seq<u8>, k: int)
    requires
        0 <= k <= s.len(),
        forall|p: int| 0 <= p < k && p + 4 <= s.len() ==> !blank_at(s, p),
    ensures
        attachment_of(s) == attachment_of(s.skip(k)),
    decreases k,
{
    if k == 0 {
        assert(s.skip(0) =~= s);
    } else if s.len() < 4 {
        assert(s.skip(k).len() < 4);
    } else {
        assert(!blank_at(s, 0));
        assert forall|p: int| 0 <= p < k - 1 && p + 4 <= s.skip(1).len() implies !blank_at(
            s.skip(1),
            p,
        ) by {
            assert(s.skip(1)[p] == s[p + 1]);
            assert(s.skip(1)[p + 1] == s[p + 2]);
            assert(s.skip(1)[p + 2] == s[p + 3]);
            assert(s.skip(1)[p + 3] == s[p + 4]);
            assert(!blank_at(s, p + 1));
        }
        lemma_scan(s.skip(1), k - 1);
        assert(s.skip(1).skip(k - 1) =~= s.skip(k));
    }
}

/// A header line whose text is header-safe and whose successor does not
/// begin with a carriage return is passed over by the blank-line scan.
proof fn lemma_absorb_line(text: Seq<u8>, rest: Seq<u8>)
    requires
        header_safe(text),
        rest.len() >= 1,
        rest[0] != 13u8,
    ensures
        attachment_of(text + crlf() + rest) == attachment_of(rest),
{
    let s = text + crlf() + rest;
    let m: int = text.len() as int + 2;
    assert(forall|p: int| 0 <= p < m && p + 4 <= s.len() ==> !blank_at(s, p)) by {
        assert(forall|p: int| 0 <= p < text.len() ==> s[p] == text[p]);
        assert(s[text.len() as int] == 13u8);
        assert(s[text.len() as int + 1] == 10u8);
        assert(forall|p: int| 0 <= p < rest.len() ==> s[m + p] == rest[p]);
    }
    lemma_scan(s, m);
    assert(s.skip(m) =~= rest);
}

/// At the end of the header block the scan finds the blank line and
/// hands the body to the base64 decoder.
proof fn lemma_scan_finds_body(text: Seq<u8>, body: Seq<u8>)
    requires
        header_safe(text),
    ensures
        attachment_of(text + crlf() + crlf() + body) == b64_decode(body),
{
    let s = text + crlf() + crlf() + body;
    let m = text.len() as int;
    assert(forall|p: int| 0 <= p < m && p + 4 <= s.len() ==> !blank_at(s, p)) by {
        assert(forall|p: int| 0 <= p < text.len() ==> s[p] == text[p]);
    }
    lemma_scan(s, m);
    let t = s.skip(m);
    assert(t =~= crlf() + crlf() + body);
    assert(t.len() >= 4);
    assert(blank_at(t, 0));
    assert(t.skip(4) =~= body);
}

/// Every fixed piece of header text is header-safe, and none is empty.
proof fn lemma_fixed_text_safe()
    ensures
        header_safe(to_label()),
        header_safe(from_label()),
        header_safe(subject_label()),
        header_safe(mime_text()),
        header_safe(type_text()),
        header_safe(disposition_text()),
        header_safe(encoding_text()),
        header_safe(subject_prefix()),
        to_label().len() > 0,
        from_label().len() > 0,
        subject_label().len() > 0,
        mime_text().len() > 0,
        type_text().len() > 0,
        disposition_text().len() > 0,
        encoding_text().len() > 0,
{
}

/// Concatenating header-safe byte sequences keeps them header-safe.
proof fn lemma_safe_concat(a: Seq<u8>, b: Seq<u8>)
    requires
        header_safe(a),
        header_safe(b),
    ensures
        header_safe(a + b),
{
    assert(forall|i: int| 0 <= i < a.len() + b.len() ==> (a + b)[i] != 13u8 && (a + b)[i]
        != 10u8) by {
        assert(forall|i: int| 0 <= i < a.len() ==> (a + b)[i] == a[i]);
        assert(forall|i: int| a.len() <= i < a.len() + b.len() ==> (a + b)[i] == b[i - a.len()]);
    }
}

/// The reader inverts the builder: a message built with header-safe
/// fields and attachment bytes `B` carries exactly `B`, whatever `B` is.
#[verifier::rlimit(100)]
pub proof fn lemma_message_round_trip(to: Seq<u8>, from: Seq<u8>, subject: Seq<u8>, attachment: Seq<u8>)
    requires
        header_safe(to),
        header_safe(from),
        header_safe(subject),
    ensures
        attachment_of(message_bytes(to, from, subject, attachment)) == Some(attachment),
{
    let body = b64_encode(attachment);
    lemma_fixed_text_safe();
    lemma_safe_concat(to_label(), to);
    lemma_safe_concat(from_label(), from);
    lemma_safe_concat(subject_label(), subject);
    let l1 = to_label() + to;
    let l2 = from_label() + from;
    let l3 = subject_label() + subject;
    let t7 = encoding_text() + crlf() + crlf() + body;
    let t6 = disposition_text() + crlf() + t7;
    let t5 = type_text() + crlf() + t6;
    let t4 = mime_text() + crlf() + t5;
    let t3 = l3 + crlf() + t4;
    let t2 = l2 + crlf() + t3;
    let t1 = l1 + crlf() + t2;
    assert(message_bytes(to, from, subject, attachment) =~= t1);
    lemma_scan_finds_body(encoding_text(), body);
    lemma_absorb_line(disposition_text(), t7);
    lemma_absorb_line(type_text(), t6);
    lemma_absorb_line(mime_text(), t5);
    lemma_absorb_line(l3, t4);
    lemma_absorb_line(l2, t3);
    lemma_absorb_line(l1, t2);
    lemma_round_trip(attachment);
}

/// Appends the bytes of `To: `.
fn push_to_label(out: &mut Vec<u8>)
    ensures
        final(out)@ == old(out)@ + to_label(),
{
    out.push('T' as u8);
    out.push('o' as u8);
    out.push(':' as u8);
    out.push(' ' as u8);
    proof {
        assert(out@ =~= old(out)@ + to_label());
    }
}

/// Appends the bytes of `From: `.
fn push_from_label(out: &mut Vec<u8>)
    ensures
        final(out)@ == old(out)@ + from_label(),
{
    out.push('F' as u8);
    out.push('r' as u8);
    out.push('o' as u8);
    out.push('m' as u8);
    out.push(':' as u8);
    out.push(' ' as u8);
    proof {
        assert(out@ =~= old(out)@ + from_label());
    }
}

/// Appends the bytes of `Subject: `.
fn push_subject_label(out: &mut Vec<u8>)
    ensures
        final(out)@ == old(out)@ + subject_label(),
{
    out.push('S' as u8);
    out.push('u' as u8);
    out.push('b' as u8);
    out.push('j' as u8);
    out.push('e' as u8);
    out.push('c' as u8);
    out.push('t' as u8);
    out.push(':' as u8);
    out.push(' ' as u8);
    proof {
        assert(out@ =~= old(out)@ + subject_label());
    }
}

/// Appends the bytes of `MIME-Version: 1.0`.
fn push_mime_text(out: &mut Vec<u8>)
    ensures
        final(out)@ == old(out)@ + mime_text(),
{
    out.push('M' as u8);
    out.push('I' as u8);
    out.push('M' as u8);
    out.push('E' as u8);
    out.push('-' as u8);
    out.push('V' as u8);
    out.push('e' as u8);
    out.push('r' as u8);
    out.push('s' as u8);
    out.push('i' as u8);
    out.push('o' as u8);
    out.push('n' as u8);
    out.push(':' as u8);
    out.push(' ' as u8);
    out.push('1' as u8);
    out.push('.' as u8);
    out.push('0' as u8);
    proof {
        assert(out@ =~= old(out)@ + mime_text());
    }
}

/// Appends the bytes of `Content-Type: image/gif`.
fn push_type_text(out: &mut Vec<u8>)
    ensures
        final(out)@ == old(out)@ + type_text(),
{
    out.push('C' as u8);
    out.push('o' as u8);
    out.push('n' as u8);
    out.push('t' as u8);
    out.push('e' as u8);
    out.push('n' as u8);
    out.push('t' as u8);
    out.push('-' as u8);
    out.push('T' as u8);
    out.push('y' as u8);
    out.push('p' as u8);
    out.push('e' as u8);
    out.push(':' as u8);
    out.push(' ' as u8);
    out.push('i' as u8);
    out.push('m' as u8);
    out.push('a' as u8);
    out.push('g' as u8);
    out.push('e' as u8);
    out.push('/' as u8);
    out.push('g' as u8);
    out.push('i' as u8);
    out.push('f' as u8);
    proof {
        assert(out@ =~= old(out)@ + type_text());
    }
}

/// Appends the bytes of `Content-Disposition: inline`.
fn push_disposition_text(out: &mut Vec<u8>)
    ensures
        final(out)@ == old(out)@ + disposition_text(),
{
    out.push('C' as u8);
    out.push('o' as u8);
    out.push('n' as u8);
    out.push('t' as u8);
    out.push('e' as u8);
    out.push('n' as u8);
    out.push('t' as u8);
    out.push('-' as u8);
    out.push('D' as u8);
    out.push('i' as u8);
    out.push('s' as u8);
    out.push('p' as u8);
    out.push('o' as u8);
    out.push('s' as u8);
    out.push('i' as u8);
    out.push('t' as u8);
    out.push('i' as u8);
    out.push('o' as u8);
    out.push('n' as u8);
    out.push(':' as u8);
    out.push(' ' as u8);
    out.push('i' as u8);
    out.push('n' as u8);
    out.push('l' as u8);
    out.push('i' as u8);
    out.push('n' as u8);
    out.push('e' as u8);
    proof {
        assert(out@ =~= old(out)@ + disposition_text());
    }
}

/// Appends the bytes of `Content-Transfer-Encoding: base64`.
fn push_encoding_text(out: &mut Vec<u8>)
    ensures
        final(out)@ == old(out)@ + encoding_text(),
{
    out.push('C' as u8);
    out.push('o' as u8);
    out.push('n' as u8);
    out.push('t' as u8);
    out.push('e' as u8);
    out.push('n' as u8);
    out.push('t' as u8);
    out.push('-' as u8);
    out.push('T' as u8);
    out.push('r' as u8);
    out.push('a' as u8);
    out.push('n' as u8);
    out.push('s' as u8);
    out.push('f' as u8);
    out.push('e' as u8);
    out.push('r' as u8);
    out.push('-' as u8);
    out.push('E' as u8);
    out.push('n' as u8);
    out.push('c' as u8);
    out.push('o' as u8);
    out.push('d' as u8);
    out.push('i' as u8);
    out.push('n' as u8);
    out.push('g' as u8);
    out.push(':' as u8);
    out.push(' ' as u8);
    out.push('b' as u8);
    out.push('a' as u8);
    out.push('s' as u8);
    out.push('e' as u8);
    out.push('6' as u8);
    out.push('4' as u8);
    proof {
        assert(out@ =~= old(out)@ + encoding_text());
    }
}

/// Appends the bytes of `Dilbert for `.
fn push_subject_prefix(out: &mut Vec<u8>)
    ensures
        final(out)@ == old(out)@ + subject_prefix(),
{
    out.push('D' as u8);
    out.push('i' as u8);
    out.push('l' as u8);
    out.push('b' as u8);
    out.push('e' as u8);
    out.push('r' as u8);
    out.push('t' as u8);
    out.push(' ' as u8);
    out.push('f' as u8);
    out.push('o' as u8);
    out.push('r' as u8);
    out.push(' ' as u8);
    proof {
        assert(out@ =~= old(out)@ + subject_prefix());
    }
}

/// Appends a line ending.
fn push_crlf(out: &mut Vec<u8>)
    ensures
        final(out)@ == old(out)@ + crlf(),
{
    out.push(13u8);
    out.push(10u8);
    proof {
        assert(out@ =~= old(out)@ + crlf());
    }
}

/// Appends a copy of `src`.
fn append_bytes(out: &mut Vec<u8>, src: &Vec<u8>)
    ensures
        final(out)@ == old(out)@ + src@,
{
    let n = src.len();
    let mut j: usize = 0;
    proof {
        assert(out@ =~= old(out)@ + src@.take(0));
    }
    while j < n
        invariant
            j <= n,
            n == src@.len(),
            out@ == old(out)@ + src@.take(j as int),
        decreases n - j,
    {
        out.push(src[j]);
        proof {
            assert(out@ =~= old(out)@ + src@.take(j + 1));
        }
        j = j + 1;
    }
    proof {
        assert(src@.take(n as int) =~= src@);
    }
}

/// Whether a field may stand in a header line.
fn is_header_safe(v: &Vec<u8>) -> (r: bool)
    ensures
        r == header_safe(v@),
{
    let n = v.len();
    let mut j: usize = 0;
    while j < n
        invariant
            j <= n,
            n == v@.len(),
            forall|i: int| 0 <= i < j ==> v@[i] != 13u8 && v@[i] != 10u8,
        decreases n - j,
    {
        let b = v[j];
        if b == 13 || b == 10 {
            return false;
        }
        j = j + 1;
    }
    true
}

/// Builds the raw MIME message of one notification: `To`, `From` and
/// `Subject` lines, the fixed MIME lines, a blank line, and the
/// attachment base64-encoded. Fails, with the reason, exactly when one
/// of the three fields would break its header line open.
pub fn build_message(to: &Vec<u8>, from: &Vec<u8>, subject: &Vec<u8>, attachment: &Vec<u8>) -> (r:
    Result<Vec<u8>, String>)
    ensures
        r is Ok <==> header_safe(to@) && header_safe(from@) && header_safe(subject@),
        r is Ok ==> r->Ok_0@ == message_bytes(to@, from@, subject@, attachment@),
        r is Err ==> r->Err_0@ == "message header field holds a line break"@,
{
    if !(is_header_safe(to) && is_header_safe(from) && is_header_safe(subject)) {
        return Err("message header field holds a line break".to_owned());
    }
    let mut out: Vec<u8> = Vec::new();
    push_to_label(&mut out);
    append_bytes(&mut out, to);
    push_crlf(&mut out);
    push_from_label(&mut out);
    append_bytes(&mut out, from);
    push_crlf(&mut out);
    push_subject_label(&mut out);
    append_bytes(&mut out, subject);
    push_crlf(&mut out);
    push_mime_text(&mut out);
    push_crlf(&mut out);
    push_type_text(&mut out);
    push_crlf(&mut out);
    push_disposition_text(&mut out);
    push_crlf(&mut out);
    push_encoding_text(&mut out);
    push_crlf(&mut out);
    push_crlf(&mut out);
    let body = encode(attachment);
    append_bytes(&mut out, &body);
    proof {
        assert(out@ =~= message_bytes(to@, from@, subject@, attachment@));
    }
    Ok(out)
}

/// Recovers the attachment bytes from a raw message: base64-decodes
/// everything after the first blank line. `None` without a blank line or
/// when the decoding fails.
pub fn read_attachment(msg: &Vec<u8>) -> (r: Option<Vec<u8>>)
    ensures
        match r {
            Some(v) => attachment_of(msg@) == Some(v@),
            None => attachment_of(msg@) is None,
        },
{
    let n = msg.len();
    let mut i: usize = 0;
    proof {
        assert(msg@.skip(0) =~= msg@);
    }
    while n - i >= 4
        invariant
            i <= n,
            n == msg@.len(),
            attachment_of(msg@) == attachment_of(msg@.skip(i as int)),
        decreases n - i,
    {
        proof {
            assert(msg@.skip(i as int)[0] == msg@[i as int]);
            assert(msg@.skip(i as int)[1] == msg@[i + 1]);
            assert(msg@.skip(i as int)[2] == msg@[i + 2]);
            assert(msg@.skip(i as int)[3] == msg@[i + 3]);
        }
        if msg[i] == 13 && msg[i + 1] == 10 && msg[i + 2] == 13 && msg[i + 3] == 10 {
            proof {
                assert(blank_at(msg@.skip(i as int), 0));
                assert(msg@.skip(i as int).skip(4) =~= msg@.skip(i + 4));
            }
            let mut body: Vec<u8> = Vec::new();
            let mut j: usize = i + 4;
            proof {
                assert(body@ =~= msg@.subrange(i + 4, i + 4));
            }
            while j < n
                invariant
                    i + 4 <= j <= n,
                    n == msg@.len(),
                    body@ == msg@.subrange(i + 4, j as int),
                decreases n - j,
            {
                body.push(msg[j]);
                proof {
                    assert(body@ =~= msg@.subrange(i + 4, j + 1));
                }
                j = j + 1;
            }
            proof {
                assert(msg@.subrange(i + 4, n as int) =~= msg@.skip(i + 4));
            }
            return decode(&body);
        }
        proof {
            assert(!blank_at(msg@.skip(i as int), 0));
            assert(msg@.skip(i as int).skip(1) =~= msg@.skip(i + 1));
        }
        i = i + 1;
    }
    proof {
        assert(msg@.skip(i as int).len() < 4);
    }
    None
}

/// The digits of `n` in decimal, most significant first.
pub open spec fn dec_rep(n: nat) -> Seq<u8>
    decreases n,
{
    if n < 10 {
        seq![(48 + n) as u8]
    } else {
        dec_rep(n / 10) + seq![(48 + n % 10) as u8]
    }
}

/// Appends the decimal digits of `n`.
fn push_decimal(out: &mut Vec<u8>, n: u16)
    ensures
        final(out)@ == old(out)@ + dec_rep(n as nat),
    decreases n,
{
    if n < 10 {
        out.push(48 + n as u8);
        proof {
            assert(out@ =~= old(out)@ + dec_rep(n as nat));
        }
    } else {
        push_decimal(out, n / 10);
        out.push(48 + (n % 10) as u8);
        proof {
            assert((n / 10) as nat == n as nat / 10);
            assert((n % 10) as nat == n as nat % 10);
            assert(out@ =~= old(out)@ + dec_rep(n as nat));
        }
    }
}

/// The subject line of a release: the fixed prefix, then the day, month
/// and year numbers separated by dots, without leading zeroes.
pub open spec fn subject_bytes(day: u16, month: u16, year: u16) -> Seq<u8> {
    subject_prefix() + dec_rep(day as nat) + seq!['.' as u8] + dec_rep(month as nat) + seq![
        '.' as u8,
    ] + dec_rep(year as nat)
}

/// Builds the subject line of a release.
pub fn subject_line(day: u16, month: u16, year: u16) -> (r: Vec<u8>)
    ensures
        r@ == subject_bytes(day, month, year),
{
    let mut out: Vec<u8> = Vec::new();
    push_subject_prefix(&mut out);
    push_decimal(&mut out, day);
    out.push('.' as u8);
    push_decimal(&mut out, month);
    out.push('.' as u8);
    push_decimal(&mut out, year);
    proof {
        assert(out@ =~= subject_bytes(day, month, year));
    }
    out
}

/// A decimal representation holds digit bytes only.
proof fn lemma_dec_rep_safe(n: nat)
    ensures
        header_safe(dec_rep(n)),
    decreases n,
{
    if n >= 10 {
        lemma_dec_rep_safe(n / 10);
        assert(header_safe(seq![(48 + n % 10) as u8]));
        lemma_safe_concat(dec_rep(n / 10), seq![(48 + n % 10) as u8]);
    }
}

/// A subject line never breaks its header line open: every byte of it is
/// a printable character.
pub proof fn lemma_subject_safe(day: u16, month: u16, year: u16)
    ensures
        header_safe(subject_bytes(day, month, year)),
{
    lemma_fixed_text_safe();
    lemma_dec_rep_safe(day as nat);
    lemma_dec_rep_safe(month as nat);
    lemma_dec_rep_safe(year as nat);
    assert(header_safe(seq!['.' as u8]));
    lemma_safe_concat(subject_prefix(), dec_rep(day as nat));
    lemma_safe_concat(subject_prefix() + dec_rep(day as nat), seq!['.' as u8]);
    lemma_safe_concat(subject_prefix() + dec_rep(day as nat) + seq!['.' as u8], dec_rep(month as nat));
    lemma_safe_concat(
        subject_prefix() + dec_rep(day as nat) + seq!['.' as u8] + dec_rep(month as nat),
        seq!['.' as u8],
    );
    lemma_safe_concat(
        subject_prefix() + dec_rep(day as nat) + seq!['.' as u8] + dec_rep(month as nat) + seq![
            '.' as u8,
        ],
        dec_rep(year as nat),
    );
}

} // verus!
