//! The wire encoding of messages.
//!
//! A stored or streamed message is a JSON-shaped text record with a fixed
//! field order; string values are escaped (`"` and `\` each get a leading
//! backslash). [`decode_message`] inverts [`encode_message`] exactly, which
//! is proved as [`lemma_decode_encode`].

use vstd::prelude::*;
use crate::models::{MessagePayload, PayloadView, opt_view};

verus! {

/// How one character appears inside a quoted string value.
pub open spec fn esc_char(c: char) -> Seq<char> {
    if c == '"' || c == '\\' {
        seq!['\\', c]
    } else {
        seq![c]
    }
}

/// The escaped form of a string value.
pub open spec fn esc(s: Seq<char>) -> Seq<char>
    decreases s.len(),
{
    if s.len() == 0 {
        Seq::empty()
    } else {
        esc_char(s[0]) + esc(s.skip(1))
    }
}

/// A quoted, escaped string value.
pub open spec fn quoted(s: Seq<char>) -> Seq<char> {
    seq!['"'] + (esc(s) + seq!['"'])
}

/// An optional string value: quoted when present, the literal `null` when
/// absent.
pub open spec fn opt_enc(o: Option<Seq<char>>) -> Seq<char> {
    match o {
        Some(s) => quoted(s),
        None => "null"@,
    }
}

/// The stored form of a message: its five fields in fixed order.
pub open spec fn encode_payload(p: PayloadView) -> Seq<char> {
    "{\"encrypted_blob\":"@ + (quoted(p.encrypted_blob) + (",\"nonce\":"@ + (quoted(p.nonce)
        + (",\"sender_id\":"@ + (quoted(p.sender_id) + (",\"group_id\":"@ + (opt_enc(p.group_id)
        + (",\"recipient_id\":"@ + (opt_enc(p.recipient_id) + "}"@)))))))))
}

/// Consuming a known literal off the front of the input.
pub open spec fn expect(s: Seq<char>, l: Seq<char>) -> Option<Seq<char>> {
    if l.len() <= s.len() && s.take(l.len() as int) == l {
        Some(s.skip(l.len() as int))
    } else {
        None
    }
}

/// Un-escaping the input up to the closing quote; `acc` is what has been
/// read so far. Returns the string's value and the input after the quote.
pub open spec fn unesc_from(s: Seq<char>, acc: Seq<char>) -> Option<(Seq<char>, Seq<char>)>
    decreases s.len(),
{
    if s.len() == 0 {
        None
    } else if s[0] == '"' {
        Some((acc, s.skip(1)))
    } else if s[0] == '\\' {
        if s.len() < 2 || !(s[1] == '"' || s[1] == '\\') {
            None
        } else {
            unesc_from(s.skip(2), acc.push(s[1]))
        }
    } else {
        unesc_from(s.skip(1), acc.push(s[0]))
    }
}

/// Parsing a quoted string value off the front of the input.
pub open spec fn parse_quoted(s: Seq<char>) -> Option<(Seq<char>, Seq<char>)> {
    if s.len() >= 1 && s[0] == '"' {
        unesc_from(s.skip(1), Seq::empty())
    } else {
        None
    }
}

/// Parsing an optional string value off the front of the input.
pub open spec fn parse_opt(s: Seq<char>) -> Option<(Option<Seq<char>>, Seq<char>)> {
    if s.len() >= 1 && s[0] == '"' {
        match unesc_from(s.skip(1), Seq::empty()) {
            Some(pr) => Some((Some(pr.0), pr.1)),
            None => None,
        }
    } else {
        match expect(s, "null"@) {
            Some(r) => Some((None, r)),
            None => None,
        }
    }
}

/// The meaning of a stored record: the message it denotes, if it is exactly
/// an encoding that [`encode_payload`] produces.
pub open spec fn decode_payload(s: Seq<char>) -> Option<PayloadView> {
    match expect(s, "{\"encrypted_blob\":"@) {
        None => None,
        Some(s1) => match parse_quoted(s1) {
            None => None,
            Some(pr1) => match expect(pr1.1, ",\"nonce\":"@) {
                None => None,
                Some(s2) => match parse_quoted(s2) {
                    None => None,
                    Some(pr2) => match expect(pr2.1, ",\"sender_id\":"@) {
                        None => None,
                        Some(s3) => match parse_quoted(s3) {
                            None => None,
                            Some(pr3) => match expect(pr3.1, ",\"group_id\":"@) {
                                None => None,
                                Some(s4) => match parse_opt(s4) {
                                    None => None,
                                    Some(pr4) => match expect(pr4.1, ",\"recipient_id\":"@) {
                                        None => None,
                                        Some(s5) => match parse_opt(s5) {
                                            None => None,
                                            Some(pr5) => match expect(pr5.1, "}"@) {
                                                None => None,
                                                Some(s6) => if s6.len() == 0 {
                                                    Some(PayloadView {
                                                        encrypted_blob: pr1.0,
                                                        nonce: pr2.0,
                                                        sender_id: pr3.0,
                                                        group_id: pr4.0,
                                                        recipient_id: pr5.0,
                                                    })
                                                } else {
                                                    None
                                                },
                                            },
                                        },
                                    },
                                },
                            },
                        },
                    },
                },
            },
        },
    }
}

/// Relies on `String::push`: appends the one character.
#[verifier::external_body]
pub(crate) fn push_char(s: &mut String, c: char)
    ensures
        final(s)@ == old(s)@.push(c),
{
    s.push(c);
}

/// Escaping one more character extends the escaped form at the end.
proof fn lemma_esc_snoc(s: Seq<char>, c: char)
    ensures
        esc(s.push(c)) == esc(s) + esc_char(c),
    decreases s.len(),
{
    assert(s.push(c)[0] == if s.len() == 0 { c } else { s[0] });
    if s.len() == 0 {
        assert(s.push(c).skip(1) =~= Seq::<char>::empty());
        assert(esc(s.push(c)) == esc_char(c) + esc(Seq::<char>::empty()));
        assert(esc(s.push(c)) =~= esc(s) + esc_char(c));
    } else {
        assert(s.push(c).skip(1) =~= s.skip(1).push(c));
        lemma_esc_snoc(s.skip(1), c);
        assert(esc(s.push(c)) == esc_char(s[0]) + (esc(s.skip(1)) + esc_char(c)));
        assert(esc(s.push(c)) =~= esc(s) + esc_char(c));
    }
}

fn escape_append(out: &mut String, s: &str)
    ensures
        final(out)@ == old(out)@ + esc(s@),
{
    let n = s.unicode_len();
    let mut i: usize = 0;
    while i < n
        invariant
            i <= n,
            n == s@.len(),
            out@ == old(out)@ + esc(s@.take(i as int)),
        decreases n - i,
    {
        let c = s.get_char(i);
        proof {
            lemma_esc_snoc(s@.take(i as int), c);
            assert(s@.take(i + 1) =~= s@.take(i as int).push(c));
        }
        if c == '"' || c == '\\' {
            push_char(out, '\\');
        }
        push_char(out, c);
        proof {
            assert(out@ =~= old(out)@ + esc(s@.take(i + 1)));
        }
        i += 1;
    }
    proof {
        assert(s@.take(n as int) =~= s@);
    }
}

pub(crate) fn append_quoted(out: &mut String, s: &str)
    ensures
        final(out)@ == old(out)@ + quoted(s@),
{
    push_char(out, '"');
    escape_append(out, s);
    push_char(out, '"');
    proof {
        assert(out@ =~= old(out)@ + quoted(s@));
    }
}

fn append_opt(out: &mut String, o: &Option<String>)
    ensures
        final(out)@ == old(out)@ + opt_enc(opt_view(*o)),
{
    match o {
        Some(s) => {
            append_quoted(out, s.as_str());
        },
        None => {
            out.append("null");
        },
    }
}

/// Encodes a message to its stored text form.
pub fn encode_message(p: &MessagePayload) -> (r: String)
    ensures
        r@ == encode_payload(p@),
{
    let mut out = String::from_str("{\"encrypted_blob\":");
    append_quoted(&mut out, p.encrypted_blob.as_str());
    out.append(",\"nonce\":");
    append_quoted(&mut out, p.nonce.as_str());
    out.append(",\"sender_id\":");
    append_quoted(&mut out, p.sender_id.as_str());
    out.append(",\"group_id\":");
    append_opt(&mut out, &p.group_id);
    out.append(",\"recipient_id\":");
    append_opt(&mut out, &p.recipient_id);
    out.append("}");
    proof {
        assert(out@ =~= encode_payload(p@));
    }
    out
}

fn expect_at(s: &str, i: usize, lit: &str) -> (r: Option<usize>)
    requires
        i <= s@.len(),
    ensures
        match r {
            Some(j) => i <= j <= s@.len() && expect(s@.skip(i as int), lit@) == Some(
                s@.skip(j as int),
            ),
            None => expect(s@.skip(i as int), lit@) is None,
        },
{
    let n = s.unicode_len();
    let ll = lit.unicode_len();
    if n - i < ll {
        return None;
    }
    let mut k: usize = 0;
    while k < ll
        invariant
            k <= ll,
            i + ll <= n,
            i <= s@.len(),
            n == s@.len(),
            ll == lit@.len(),
            forall|m: int| 0 <= m < k ==> s@.skip(i as int)[m] == lit@[m],
        decreases ll - k,
    {
        if s.get_char(i + k) != lit.get_char(k) {
            proof {
                assert(s@.skip(i as int)[k as int] == s@[i + k]);
                if expect(s@.skip(i as int), lit@) is Some {
                    assert(s@.skip(i as int).take(ll as int)[k as int] == lit@[k as int]);
                    assert(false);
                }
            }
            return None;
        }
        proof {
            assert(s@.skip(i as int)[k as int] == s@[i + k]);
        }
        k += 1;
    }
    proof {
        assert(s@.skip(i as int).take(ll as int) =~= lit@);
        assert(s@.skip(i as int).skip(ll as int) =~= s@.skip((i + ll) as int));
    }
    Some(i + ll)
}

fn scan_string(s: &str, i: usize) -> (r: Option<(String, usize)>)
    requires
        i <= s@.len(),
    ensures
        match r {
            Some(pr) => pr.1 <= s@.len() && unesc_from(s@.skip(i as int), Seq::empty()) == Some(
                (pr.0@, s@.skip(pr.1 as int)),
            ),
            None => unesc_from(s@.skip(i as int), Seq::empty()) is None,
        },
{
    let n = s.unicode_len();
    let mut out = String::new();
    let mut j: usize = i;
    loop
        invariant
            i <= j <= n,
            n == s@.len(),
            unesc_from(s@.skip(i as int), Seq::empty()) == unesc_from(s@.skip(j as int), out@),
        decreases n - j,
    {
        if j >= n {
            proof {
                assert(s@.skip(j as int).len() == 0);
            }
            return None;
        }
        let c = s.get_char(j);
        proof {
            assert(s@.skip(j as int)[0] == s@[j as int]);
        }
        if c == '"' {
            proof {
                assert(s@.skip(j as int).skip(1) =~= s@.skip(j + 1));
            }
            return Some((out, j + 1));
        } else if c == '\\' {
            if j + 1 >= n {
                proof {
                    assert(s@.skip(j as int).len() < 2);
                }
                return None;
            }
            let c2 = s.get_char(j + 1);
            proof {
                assert(s@.skip(j as int)[1] == s@[j + 1]);
            }
            if c2 == '"' || c2 == '\\' {
                proof {
                    assert(s@.skip(j as int).skip(2) =~= s@.skip(j + 2));
                }
                push_char(&mut out, c2);
                j += 2;
            } else {
                return None;
            }
        } else {
            proof {
                assert(s@.skip(j as int).skip(1) =~= s@.skip(j + 1));
            }
            push_char(&mut out, c);
            j += 1;
        }
    }
}

fn parse_quoted_at(s: &str, i: usize) -> (r: Option<(String, usize)>)
    requires
        i <= s@.len(),
    ensures
        match r {
            Some(pr) => pr.1 <= s@.len() && parse_quoted(s@.skip(i as int)) == Some(
                (pr.0@, s@.skip(pr.1 as int)),
            ),
            None => parse_quoted(s@.skip(i as int)) is None,
        },
{
    let n = s.unicode_len();
    if i >= n {
        return None;
    }
    let c = s.get_char(i);
    proof {
        assert(s@.skip(i as int)[0] == s@[i as int]);
    }
    if c != '"' {
        return None;
    }
    proof {
        assert(s@.skip(i as int).skip(1) =~= s@.skip(i + 1));
    }
    scan_string(s, i + 1)
}

fn parse_opt_at(s: &str, i: usize) -> (r: Option<(Option<String>, usize)>)
    requires
        i <= s@.len(),
    ensures
        match r {
            Some(pr) => pr.1 <= s@.len() && parse_opt(s@.skip(i as int)) == Some(
                (opt_view(pr.0), s@.skip(pr.1 as int)),
            ),
            None => parse_opt(s@.skip(i as int)) is None,
        },
{
    let n = s.unicode_len();
    if i < n && s.get_char(i) == '"' {
        proof {
            assert(s@.skip(i as int)[0] == s@[i as int]);
            assert(s@.skip(i as int).skip(1) =~= s@.skip(i + 1));
        }
        match scan_string(s, i + 1) {
            Some(pr) => Some((Some(pr.0), pr.1)),
            None => None,
        }
    } else {
        proof {
            if i < n {
                assert(s@.skip(i as int)[0] == s@[i as int]);
            } else {
                assert(s@.skip(i as int).len() == 0);
            }
        }
        match expect_at(s, i, "null") {
            Some(j) => Some((None, j)),
            None => None,
        }
    }
}

/// Decodes a stored text record back to the message it encodes; `None` for
/// any text that [`encode_message`] cannot have produced.
pub fn decode_message(s: &str) -> (r: Option<MessagePayload>)
    ensures
        match r {
            Some(p) => decode_payload(s@) == Some(p@),
            None => decode_payload(s@) is None,
        },
{
    proof {
        assert(s@.skip(0) =~= s@);
    }
    let j1 = match expect_at(s, 0, "{\"encrypted_blob\":") {
        Some(j) => j,
        None => {
            return None;
        },
    };
    let pr1 = match parse_quoted_at(s, j1) {
        Some(pr) => pr,
        None => {
            return None;
        },
    };
    let j2 = match expect_at(s, pr1.1, ",\"nonce\":") {
        Some(j) => j,
        None => {
            return None;
        },
    };
    let pr2 = match parse_quoted_at(s, j2) {
        Some(pr) => pr,
        None => {
            return None;
        },
    };
    let j3 = match expect_at(s, pr2.1, ",\"sender_id\":") {
        Some(j) => j,
        None => {
            return None;
        },
    };
    let pr3 = match parse_quoted_at(s, j3) {
        Some(pr) => pr,
        None => {
            return None;
        },
    };
    let j4 = match expect_at(s, pr3.1, ",\"group_id\":") {
        Some(j) => j,
        None => {
            return None;
        },
    };
    let pr4 = match parse_opt_at(s, j4) {
        Some(pr) => pr,
        None => {
            return None;
        },
    };
    let j5 = match expect_at(s, pr4.1, ",\"recipient_id\":") {
        Some(j) => j,
        None => {
            return None;
        },
    };
    let pr5 = match parse_opt_at(s, j5) {
        Some(pr) => pr,
        None => {
            return None;
        },
    };
    let j6 = match expect_at(s, pr5.1, "}") {
        Some(j) => j,
        None => {
            return None;
        },
    };
    if s.unicode_len() != j6 {
        return None;
    }
    Some(
        MessagePayload {
            encrypted_blob: pr1.0,
            nonce: pr2.0,
            sender_id: pr3.0,
            group_id: pr4.0,
            recipient_id: pr5.0,
        },
    )
}

/// Consuming a literal off the front of exactly that literal plus a rest
/// leaves the rest.
proof fn lemma_expect_concat(l: Seq<char>, rest: Seq<char>)
    ensures
        expect(l + rest, l) == Some(rest),
{
    assert((l + rest).take(l.len() as int) =~= l);
    assert((l + rest).skip(l.len() as int) =~= rest);
}

/// Un-escaping inverts escaping: reading an escaped string up to its closing
/// quote yields the original string and the input after the quote.
proof fn lemma_unesc_esc(x: Seq<char>, rest: Seq<char>, acc: Seq<char>)
    ensures
        unesc_from(esc(x) + (seq!['"'] + rest), acc) == Some((acc + x, rest)),
    decreases x.len(),
{
    let s = esc(x) + (seq!['"'] + rest);
    if x.len() == 0 {
        assert(s =~= seq!['"'] + rest);
        assert(s[0] == '"');
        assert(s.skip(1) =~= rest);
        assert(acc + x =~= acc);
    } else {
        let c = x[0];
        assert(esc(x) == esc_char(c) + esc(x.skip(1)));
        if c == '"' || c == '\\' {
            assert(esc_char(c) == seq!['\\', c]);
            assert(s[0] == '\\');
            assert(s[1] == c);
            assert(s.len() >= 2);
            assert(s.skip(2) =~= esc(x.skip(1)) + (seq!['"'] + rest));
            lemma_unesc_esc(x.skip(1), rest, acc.push(c));
            assert(acc.push(c) + x.skip(1) =~= acc + x);
        } else {
            assert(esc_char(c) == seq![c]);
            assert(s[0] == c);
            assert(s.skip(1) =~= esc(x.skip(1)) + (seq!['"'] + rest));
            lemma_unesc_esc(x.skip(1), rest, acc.push(c));
            assert(acc.push(c) + x.skip(1) =~= acc + x);
        }
    }
}

proof fn lemma_parse_quoted_enc(x: Seq<char>, rest: Seq<char>)
    ensures
        parse_quoted(quoted(x) + rest) == Some((x, rest)),
{
    let s = quoted(x) + rest;
    assert(s[0] == '"');
    assert(s.skip(1) =~= esc(x) + (seq!['"'] + rest));
    lemma_unesc_esc(x, rest, Seq::empty());
    assert(Seq::<char>::empty() + x =~= x);
}

proof fn lemma_parse_opt_enc(o: Option<Seq<char>>, rest: Seq<char>)
    ensures
        parse_opt(opt_enc(o) + rest) == Some((o, rest)),
{
    match o {
        Some(x) => {
            let s = opt_enc(o) + rest;
            assert(s[0] == '"');
            assert(s.skip(1) =~= esc(x) + (seq!['"'] + rest));
            lemma_unesc_esc(x, rest, Seq::empty());
            assert(Seq::<char>::empty() + x =~= x);
        },
        None => {
            reveal_strlit("null");
            let s = "null"@ + rest;
            assert(s[0] == 'n');
            lemma_expect_concat("null"@, rest);
        },
    }
}

/// The round trip: decoding what [`encode_payload`] produced gives back
/// exactly the encoded message.
pub proof fn lemma_decode_encode(p: PayloadView)
    ensures
        decode_payload(encode_payload(p)) == Some(p),
{
    let tail6: Seq<char> = "}"@;
    let tail5 = opt_enc(p.recipient_id) + tail6;
    let tail4 = ",\"recipient_id\":"@ + tail5;
    let tail3b = opt_enc(p.group_id) + tail4;
    let tail3 = ",\"group_id\":"@ + tail3b;
    let tail2b = quoted(p.sender_id) + tail3;
    let tail2 = ",\"sender_id\":"@ + tail2b;
    let tail1b = quoted(p.nonce) + tail2;
    let tail1 = ",\"nonce\":"@ + tail1b;
    let tail0b = quoted(p.encrypted_blob) + tail1;
    let e = encode_payload(p);
    assert(e =~= "{\"encrypted_blob\":"@ + tail0b);
    lemma_expect_concat("{\"encrypted_blob\":"@, tail0b);
    lemma_parse_quoted_enc(p.encrypted_blob, tail1);
    lemma_expect_concat(",\"nonce\":"@, tail1b);
    lemma_parse_quoted_enc(p.nonce, tail2);
    lemma_expect_concat(",\"sender_id\":"@, tail2b);
    lemma_parse_quoted_enc(p.sender_id, tail3);
    lemma_expect_concat(",\"group_id\":"@, tail3b);
    lemma_parse_opt_enc(p.group_id, tail4);
    lemma_expect_concat(",\"recipient_id\":"@, tail5);
    lemma_parse_opt_enc(p.recipient_id, tail6);
    assert(tail6 =~= "}"@ + Seq::<char>::empty());
    lemma_expect_concat("}"@, Seq::empty());
}

} // verus!
