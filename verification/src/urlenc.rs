//! `application/x-www-form-urlencoded` query strings.
use vstd::prelude::*;
use vstd::utf8::encode_utf8;
use crate::text::push_char;

verus! {

/// Bytes that the form encoding leaves as they are.
pub open spec fn form_unchanged(b: u8) -> bool {
    b == 0x2a || b == 0x2d || b == 0x2e || (0x30 <= b && b <= 0x39) || (0x41 <= b && b <= 0x5a)
        || b == 0x5f || (0x61 <= b && b <= 0x7a)
}

/// Uppercase hex digit for `0..16`.
pub open spec fn hex_upper(d: int) -> char {
    if d < 10 {
        (0x30 + d) as char
    } else {
        (0x41 + d - 10) as char
    }
}

/// The encoding of one byte: kept, `+` for a space, else `%XX` in uppercase hex.
pub open spec fn form_byte(b: u8) -> Seq<char> {
    if form_unchanged(b) {
        seq![b as char]
    } else if b == 0x20 {
        seq!['+']
    } else {
        seq!['%', hex_upper(b as int / 16), hex_upper(b as int % 16)]
    }
}

/// The form encoding of a byte string, byte by byte.
pub open spec fn form_serialize(bytes: Seq<u8>) -> Seq<char>
    decreases bytes.len(),
{
    if bytes.len() == 0 {
        Seq::empty()
    } else {
        form_byte(bytes[0]) + form_serialize(bytes.drop_first())
    }
}

/// The form encoding of a text's UTF-8 bytes.
pub open spec fn form_encode(s: Seq<char>) -> Seq<char> {
    form_serialize(encode_utf8(s))
}

/// `name=value` pairs, encoded, joined by `&`.
pub open spec fn query_spec(params: Seq<(Seq<char>, Seq<char>)>) -> Seq<char>
    decreases params.len(),
{
    if params.len() == 0 {
        Seq::empty()
    } else {
        let last = form_encode(params.last().0) + seq!['='] + form_encode(params.last().1);
        if params.len() == 1 {
            last
        } else {
            query_spec(params.drop_last()) + seq!['&'] + last
        }
    }
}

proof fn lemma_form_serialize_push(a: Seq<u8>, b: u8)
    ensures
        form_serialize(a.push(b)) == form_serialize(a) + form_byte(b),
    decreases a.len(),
{
    if a.len() == 0 {
        assert(a.push(b).drop_first() =~= Seq::<u8>::empty());
        assert(form_serialize(a.push(b).drop_first()) == Seq::<char>::empty());
        assert(a.push(b)[0] == b);
        assert(form_serialize(a) == Seq::<char>::empty());
        assert(form_serialize(a.push(b)) =~= form_byte(b) + Seq::<char>::empty());
        assert(form_byte(b) + Seq::<char>::empty() =~= form_byte(b));
    } else {
        lemma_form_serialize_push(a.drop_first(), b);
        assert(a.push(b).drop_first() =~= a.drop_first().push(b));
        assert(form_serialize(a.push(b)) =~= form_byte(a[0]) + (form_serialize(a.drop_first()) + form_byte(b)));
    }
}

fn hex_digit(d: u8) -> (c: char)
    requires
        d < 16,
    ensures
        c == hex_upper(d as int),
{
    if d < 10 {
        (0x30 + d) as char
    } else {
        (0x41 + d - 10) as char
    }
}

/// Form-encodes a text over its UTF-8 bytes, as `url::form_urlencoded::byte_serialize`
/// does: `*-._`, digits and ASCII letters are kept, a space becomes `+` and every other
/// byte `%` and two uppercase hex digits.
pub(crate) fn form_urlencode(s: &str) -> (r: String)
    ensures
        r@ == form_encode(s@),
{
    let bytes = s.as_bytes();
    let mut out = String::new();
    let mut i: usize = 0;
    while i < bytes.len()
        invariant
            i <= bytes.len(),
            bytes@ == encode_utf8(s@),
            out@ == form_serialize(bytes@.take(i as int)),
        decreases bytes.len() - i,
    {
        let b = bytes[i];
        let kept = b == 0x2a || b == 0x2d || b == 0x2e || (0x30 <= b && b <= 0x39) || (0x41 <= b && b <= 0x5a)
            || b == 0x5f || (0x61 <= b && b <= 0x7a);
        if kept {
            push_char(&mut out, b as char);
        } else if b == 0x20 {
            push_char(&mut out, '+');
        } else {
            push_char(&mut out, '%');
            push_char(&mut out, hex_digit(b / 16));
            push_char(&mut out, hex_digit(b % 16));
        }
        proof {
            lemma_form_serialize_push(bytes@.take(i as int), b);
            assert(bytes@.take(i + 1) =~= bytes@.take(i as int).push(b));
        }
        i = i + 1;
    }
    assert(bytes@.take(bytes.len() as int) =~= bytes@);
    out
}

/// Serializes `name=value` pairs as a form-encoded query string.
pub fn query_string(params: &[(&str, &str)]) -> (r: String)
    ensures
        r@ == query_spec(params@.map_values(|p: (&str, &str)| (p.0@, p.1@))),
{
    let ghost ps = params@.map_values(|p: (&str, &str)| (p.0@, p.1@));
    let mut out = String::new();
    let mut i: usize = 0;
    while i < params.len()
        invariant
            i <= params.len(),
            ps == params@.map_values(|p: (&str, &str)| (p.0@, p.1@)),
            out@ == query_spec(ps.take(i as int)),
        decreases params.len() - i,
    {
        let (k, v) = params[i];
        if i > 0 {
            out.append("&");
        }
        let ek = form_urlencode(k);
        let ev = form_urlencode(v);
        out.append(ek.as_str());
        out.append("=");
        out.append(ev.as_str());
        proof {
            reveal_strlit("&");
            reveal_strlit("=");
            assert(ps.take(i + 1).drop_last() =~= ps.take(i as int));
            assert(ps.take(i + 1).last() == (k@, v@));
            if i == 0 {
                assert(ps.take(0) =~= Seq::<(Seq<char>, Seq<char>)>::empty());
            }
        }
        i = i + 1;
    }
    assert(ps.take(params.len() as int) =~= ps);
    out
}

} // verus!
