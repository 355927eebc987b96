//! Decoding of `application/x-www-form-urlencoded` bodies.
use vstd::prelude::*;

verus! {

/// The separator between two pairs.
pub const AMPERSAND: u8 = 0x26;

/// The separator between a key and its value.
pub const EQUALS: u8 = 0x3D;

/// Encodes a space inside a component.
pub const PLUS: u8 = 0x2B;

/// Starts a two-digit hexadecimal escape.
pub const PERCENT: u8 = 0x25;

/// What `+` decodes to.
pub const SPACE: u8 = 0x20;

pub open spec fn is_hex(c: u8) -> bool {
    (0x30 <= c <= 0x39) || (0x61 <= c <= 0x66) || (0x41 <= c <= 0x46)
}

pub open spec fn hex_val(c: u8) -> nat {
    if 0x30 <= c <= 0x39 {
        (c - 0x30) as nat
    } else if 0x61 <= c <= 0x66 {
        (c - 0x61 + 10) as nat
    } else if 0x41 <= c <= 0x46 {
        (c - 0x41 + 10) as nat
    } else {
        0
    }
}

/// The byte that a valid escape `%hl` stands for.
pub open spec fn escaped_byte(h: u8, l: u8) -> u8 {
    (hex_val(h) * 16 + hex_val(l)) as u8
}

/// Decodes one component: `+` is a space, `%` followed by two hex digits is
/// the byte they spell, and every other byte (a malformed `%` included)
/// stands for itself.
pub open spec fn decode_component(b: Seq<u8>) -> Seq<u8>
    decreases b.len(),
{
    if b.len() == 0 {
        seq![]
    } else if b[0] == PLUS {
        seq![SPACE] + decode_component(b.skip(1))
    } else if b[0] == PERCENT && b.len() >= 3 && is_hex(b[1]) && is_hex(b[2]) {
        seq![escaped_byte(b[1], b[2])] + decode_component(b.skip(3))
    } else {
        seq![b[0]] + decode_component(b.skip(1))
    }
}

/// The value of one hexadecimal digit, if `c` is one.
fn hex_digit(c: u8) -> (r: Option<u8>)
    ensures
        r == (if is_hex(c) { Some(hex_val(c) as u8) } else { None::<u8> }),
        r is Some ==> r->0 < 16,
{
    if 0x30 <= c && c <= 0x39 {
        Some(c - 0x30)
    } else if 0x61 <= c && c <= 0x66 {
        Some(c - 0x61 + 10)
    } else if 0x41 <= c && c <= 0x46 {
        Some(c - 0x41 + 10)
    } else {
        None
    }
}

/// Decodes the bytes `b[lo..hi]` as one component.
fn decode_range(b: &[u8], lo: usize, hi: usize) -> (r: Vec<u8>)
    requires
        lo <= hi <= b@.len(),
    ensures
        r@ == decode_component(b@.subrange(lo as int, hi as int)),
{
    let mut out: Vec<u8> = Vec::new();
    let mut i: usize = lo;
    while i < hi
        invariant
            lo <= i <= hi <= b@.len(),
            out@ + decode_component(b@.subrange(i as int, hi as int)) == decode_component(
                b@.subrange(lo as int, hi as int),
            ),
        decreases hi - i,
    {
        let ghost rest = b@.subrange(i as int, hi as int);
        let c = b[i];
        let mut step: usize = 1;
        if c == PLUS {
            out.push(SPACE);
        } else if c == PERCENT && hi - i >= 3 {
            match (hex_digit(b[i + 1]), hex_digit(b[i + 2])) {
                (Some(h), Some(l)) => {
                    out.push(h * 16 + l);
                    step = 3;
                },
                _ => {
                    out.push(c);
                },
            }
        } else {
            out.push(c);
        }
        proof {
            assert(rest.skip(step as int) =~= b@.subrange(i + step, hi as int));
            assert(rest[0] == c);
            if c == PERCENT && rest.len() >= 3 {
                assert(rest[1] == b@[i + 1] && rest[2] == b@[i + 2]);
            }
        }
        i = i + step;
    }
    proof {
        assert(out@ + decode_component(b@.subrange(i as int, hi as int)) =~= out@);
    }
    out
}


pub open spec fn is_ascii_bytes(b: Seq<u8>) -> bool {
    forall|i: int| 0 <= i < b.len() ==> b[i] < 0x80
}

/// ASCII bytes read as text, one character each.
pub open spec fn ascii_text(b: Seq<u8>) -> Seq<char> {
    b.map_values(|c: u8| c as char)
}

/// What `String::from_utf8_lossy` makes of a byte sequence: the text it
/// spells, with each invalid sequence replaced by U+FFFD.
pub uninterp spec fn lossy_of(b: Seq<u8>) -> Seq<char>;

/// Relies on `String::from_utf8_lossy`: it reads the bytes as UTF-8, never
/// fails, and its result depends on the bytes alone; valid UTF-8, and so
/// bytes that are all ASCII, come back unchanged.
#[verifier::external_body]
fn utf8_lossy(b: &[u8]) -> (r: String)
    ensures
        r@ == lossy_of(b@),
        is_ascii_bytes(b@) ==> r@ == ascii_text(b@),
{
    String::from_utf8_lossy(b).into_owned()
}

/// Decodes one form component and reads the result as UTF-8, replacing
/// invalid sequences. Defined on every input.
pub fn url_decode(bytes: &[u8]) -> (r: String)
    ensures
        r@ == lossy_of(decode_component(bytes@)),
        is_ascii_bytes(decode_component(bytes@)) ==> r@ == ascii_text(decode_component(bytes@)),
{
    let raw = decode_range(bytes, 0, bytes.len());
    proof {
        assert(bytes@.subrange(0, bytes@.len() as int) =~= bytes@);
    }
    utf8_lossy(raw.as_slice())
}

/// `s` cut at every `sep`: one more piece than there are separators, in
/// order, none holding `sep`.
pub open spec fn split_on(s: Seq<u8>, sep: u8) -> Seq<Seq<u8>>
    decreases s.len(),
{
    if s.len() == 0 {
        seq![seq![]]
    } else {
        let init = split_on(s.drop_last(), sep);
        if s.last() == sep {
            init.push(seq![])
        } else {
            init.update(init.len() - 1, init.last().push(s.last()))
        }
    }
}

pub proof fn lemma_split_on_nonempty(s: Seq<u8>, sep: u8)
    ensures
        split_on(s, sep).len() >= 1,
    decreases s.len(),
{
    if s.len() > 0 {
        lemma_split_on_nonempty(s.drop_last(), sep);
    }
}

/// Where the first `=` of a pair stands, or its length if it holds none.
pub open spec fn eq_index(p: Seq<u8>) -> nat
    decreases p.len(),
{
    if p.len() == 0 || p[0] == EQUALS {
        0
    } else {
        1 + eq_index(p.skip(1))
    }
}

/// The key: what comes before the first `=`, or the whole pair.
pub open spec fn key_part(p: Seq<u8>) -> Seq<u8> {
    p.take(eq_index(p) as int)
}

/// The value: what comes after the first `=`, or nothing.
pub open spec fn value_part(p: Seq<u8>) -> Seq<u8> {
    if eq_index(p) < p.len() {
        p.skip(eq_index(p) + 1 as int)
    } else {
        seq![]
    }
}

/// One raw pair, its key and its value each decoded.
pub open spec fn decoded_pair(p: Seq<u8>) -> (Seq<char>, Seq<char>) {
    (lossy_of(decode_component(key_part(p))), lossy_of(decode_component(value_part(p))))
}

/// Every pair of a form body, decoded, in the order of the body.
pub open spec fn form_pairs(body: Seq<u8>) -> Seq<(Seq<char>, Seq<char>)> {
    split_on(body, AMPERSAND).map_values(|p: Seq<u8>| decoded_pair(p))
}

pub open spec fn pairs_view(v: Seq<(String, String)>) -> Seq<(Seq<char>, Seq<char>)> {
    v.map_values(|p: (String, String)| (p.0@, p.1@))
}

proof fn lemma_eq_index(p: Seq<u8>, k: nat)
    requires
        k <= p.len(),
        forall|j: int| 0 <= j < k ==> p[j] != EQUALS,
        k == p.len() || p[k as int] == EQUALS,
    ensures
        eq_index(p) == k,
    decreases k,
{
    if k > 0 {
        assert(p[0] != EQUALS);
        assert forall|j: int| 0 <= j < k - 1 implies p.skip(1)[j] != EQUALS by {
            assert(p.skip(1)[j] == p[j + 1]);
        }
        lemma_eq_index(p.skip(1), (k - 1) as nat);
    }
}

/// Decodes the pair that stands at `b[lo..hi]`.
fn decode_pair(b: &[u8], lo: usize, hi: usize) -> (r: (String, String))
    requires
        lo <= hi <= b@.len(),
    ensures
        (r.0@, r.1@) == decoded_pair(b@.subrange(lo as int, hi as int)),
{
    let ghost p = b@.subrange(lo as int, hi as int);
    let mut k: usize = lo;
    while k < hi && b[k] != EQUALS
        invariant
            lo <= k <= hi <= b@.len(),
            forall|j: int| lo <= j < k ==> b@[j] != EQUALS,
        decreases hi - k,
    {
        k = k + 1;
    }
    proof {
        lemma_eq_index(p, (k - lo) as nat);
        assert(key_part(p) =~= b@.subrange(lo as int, k as int));
    }
    let key = decode_range(b, lo, k);
    let value = if k < hi {
        proof {
            assert(value_part(p) =~= b@.subrange(k + 1, hi as int));
        }
        decode_range(b, k + 1, hi)
    } else {
        proof {
            assert(value_part(p) =~= b@.subrange(hi as int, hi as int));
        }
        decode_range(b, hi, hi)
    };
    (utf8_lossy(key.as_slice()), utf8_lossy(value.as_slice()))
}

/// Decodes a whole form body into its pairs, in order. The body is cut at
/// every `&`, each piece at its first `=`; a piece without `=` has an empty
/// value. Repeated keys are all kept. Defined on every input: no byte
/// sequence makes it fail.
pub fn decode_form(body: &[u8]) -> (r: Vec<(String, String)>)
    ensures
        pairs_view(r@) == form_pairs(body@),
        r@.len() == split_on(body@, AMPERSAND).len(),
{
    let mut out: Vec<(String, String)> = Vec::new();
    let mut start: usize = 0;
    let mut i: usize = 0;
    while i < body.len()
        invariant
            start <= i <= body@.len(),
            split_on(body@.take(i as int), AMPERSAND).len() >= 1,
            split_on(body@.take(i as int), AMPERSAND).last() == body@.subrange(start as int, i as int),
            pairs_view(out@) == form_pairs(body@.take(i as int)).drop_last(),
        decreases body@.len() - i,
    {
        let ghost before = split_on(body@.take(i as int), AMPERSAND);
        let ghost after = split_on(body@.take(i + 1), AMPERSAND);
        proof {
            assert(body@.take(i + 1).drop_last() =~= body@.take(i as int));
            lemma_split_on_nonempty(body@.take(i as int), AMPERSAND);
        }
        if body[i] == AMPERSAND {
            let pair = decode_pair(body, start, i);
            let ghost prev = out@;
            out.push(pair);
            start = i + 1;
            proof {
                assert(after == before.push(seq![]));
                assert(after.last() =~= body@.subrange(start as int, i + 1));
                assert(form_pairs(body@.take(i + 1)).drop_last() =~= form_pairs(
                    body@.take(i as int),
                ));
                assert(form_pairs(body@.take(i as int)) =~= form_pairs(
                    body@.take(i as int),
                ).drop_last().push(decoded_pair(before.last())));
                assert(pairs_view(out@) =~= pairs_view(out@.drop_last()).push(
                    (pair.0@, pair.1@),
                ));
                assert(out@.drop_last() =~= prev);
            }
        } else {
            proof {
                assert(after.drop_last() =~= before.drop_last());
                assert(after.last() =~= body@.subrange(start as int, i + 1));
                assert(form_pairs(body@.take(i + 1)).drop_last() =~= form_pairs(
                    body@.take(i as int),
                ).drop_last());
            }
        }
        i = i + 1;
    }
    let pair = decode_pair(body, start, body.len());
    let ghost prev = out@;
    out.push(pair);
    proof {
        assert(body@.take(i as int) =~= body@);
        let s = split_on(body@, AMPERSAND);
        assert(form_pairs(body@) =~= form_pairs(body@).drop_last().push(decoded_pair(s.last())));
        assert(pairs_view(out@) =~= pairs_view(out@.drop_last()).push((pair.0@, pair.1@)));
        assert(out@.drop_last() =~= prev);
    }
    out
}

} // verus!
