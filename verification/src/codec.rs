//! Percent-encoding and query-string parsing used to build the authorization
//! URL and to read the loopback callback's query parameters.
//!
//! The executable functions work on the UTF-8 bytes of their input, exactly as
//! the specs below describe: encoding maps every byte outside the unreserved
//! set to `%XX`; decoding reads `%XX` pairs back (dropping malformed pairs),
//! maps `+` to a space, and reads the reassembled bytes as UTF-8, so every
//! encoded string decodes to itself.

use vstd::prelude::*;
use vstd::string::StrSliceExecFns;
use vstd::utf8::encode_utf8;

verus! {

/// Bytes that percent-encoding passes through unchanged.
pub open spec fn is_unreserved_byte(b: u8) -> bool {
    (65 <= b && b <= 90)  // 'A'..='Z'
    || (97 <= b && b <= 122)  // 'a'..='z'
    || (48 <= b && b <= 57)  // '0'..='9'
    || b == 45  // '-'
    || b == 95  // '_'
    || b == 46  // '.'
    || b == 126  // '~'
}

/// The upper-case hex digit for a value below 16.
pub open spec fn hex_digit_spec(n: u8) -> char
    recommends
        n < 16,
{
    if n == 0 { '0' } else if n == 1 { '1' } else if n == 2 { '2' } else if n == 3 { '3' }
    else if n == 4 { '4' } else if n == 5 { '5' } else if n == 6 { '6' } else if n == 7 { '7' }
    else if n == 8 { '8' } else if n == 9 { '9' } else if n == 10 { 'A' } else if n == 11 { 'B' }
    else if n == 12 { 'C' } else if n == 13 { 'D' } else if n == 14 { 'E' } else { 'F' }
}

/// What one input byte contributes to the encoded output.
pub open spec fn encode_byte_spec(b: u8) -> Seq<char> {
    if is_unreserved_byte(b) {
        seq![b as char]
    } else {
        seq!['%', hex_digit_spec((b / 16) as u8), hex_digit_spec((b % 16) as u8)]
    }
}

/// Percent-encoding of a whole byte sequence.
pub open spec fn encode_bytes_spec(bytes: Seq<u8>) -> Seq<char>
    decreases bytes.len(),
{
    if bytes.len() == 0 {
        Seq::empty()
    } else {
        encode_byte_spec(bytes[0]) + encode_bytes_spec(bytes.skip(1))
    }
}

pub proof fn lemma_encode_bytes_push(prefix: Seq<u8>, b: u8)
    ensures
        encode_bytes_spec(prefix.push(b)) == encode_bytes_spec(prefix) + encode_byte_spec(b),
    decreases prefix.len(),
{
    if prefix.len() == 0 {
        assert(prefix.push(b)[0] == b);
        assert(prefix.push(b).skip(1) =~= Seq::<u8>::empty());
        assert(encode_bytes_spec(prefix.push(b)) == encode_byte_spec(b) + encode_bytes_spec(
            Seq::<u8>::empty(),
        ));
        assert(encode_byte_spec(b) + Seq::<char>::empty() =~= encode_byte_spec(b));
        assert(encode_bytes_spec(prefix) + encode_byte_spec(b) =~= encode_byte_spec(b));
    } else {
        let tail = prefix.skip(1);
        assert(prefix.push(b)[0] == prefix[0]);
        assert(prefix.push(b).skip(1) =~= tail.push(b));
        assert(encode_bytes_spec(prefix.push(b)) == encode_byte_spec(prefix[0])
            + encode_bytes_spec(tail.push(b)));
        lemma_encode_bytes_push(tail, b);
        assert(encode_byte_spec(prefix[0]) + (encode_bytes_spec(tail) + encode_byte_spec(b))
            =~= (encode_byte_spec(prefix[0]) + encode_bytes_spec(tail)) + encode_byte_spec(b));
    }
}

pub(crate) fn hex_digit(n: u8) -> (c: char)
    requires
        n < 16,
    ensures
        c == hex_digit_spec(n),
{
    if n == 0 { '0' } else if n == 1 { '1' } else if n == 2 { '2' } else if n == 3 { '3' }
    else if n == 4 { '4' } else if n == 5 { '5' } else if n == 6 { '6' } else if n == 7 { '7' }
    else if n == 8 { '8' } else if n == 9 { '9' } else if n == 10 { 'A' } else if n == 11 { 'B' }
    else if n == 12 { 'C' } else if n == 13 { 'D' } else if n == 14 { 'E' } else { 'F' }
}

fn is_unreserved(b: u8) -> (r: bool)
    ensures
        r == is_unreserved_byte(b),
{
    (65 <= b && b <= 90) || (97 <= b && b <= 122) || (48 <= b && b <= 57) || b == 45 || b == 95
        || b == 46 || b == 126
}

/// The value of a single hex digit byte, upper or lower case.
pub open spec fn hex_val_spec(b: u8) -> Option<u8> {
    if 48 <= b && b <= 57 {  // '0'..='9'
        Some((b - 48) as u8)
    } else if 97 <= b && b <= 102 {  // 'a'..='f'
        Some((b - 87) as u8)
    } else if 65 <= b && b <= 70 {  // 'A'..='F'
        Some((b - 55) as u8)
    } else {
        None
    }
}

/// The byte value of a two-character hex pair, read the way a numeric parser
/// with an optional leading plus sign reads it: `+X` is a single digit `X`.
pub open spec fn hex_pair_val_spec(hi: u8, lo: u8) -> Option<u8> {
    if hi == 43 {  // '+'
        hex_val_spec(lo)
    } else {
        match (hex_val_spec(hi), hex_val_spec(lo)) {
            (Some(h), Some(l)) => Some((h * 16 + l) as u8),
            _ => None,
        }
    }
}

/// Percent-decoding of a byte sequence to bytes: `%XX` becomes the byte
/// `XX` (dropped when the pair is not valid hex; missing trailing pair bytes
/// default to `0`), `+` becomes a space, and any other byte stands as
/// itself. The result is then read as UTF-8.
pub open spec fn decode_bytes_spec(bytes: Seq<u8>) -> Seq<u8>
    decreases bytes.len(),
{
    if bytes.len() == 0 {
        Seq::empty()
    } else if bytes[0] == 37 {  // '%'
        let hi = if bytes.len() >= 2 { bytes[1] } else { 48 };
        let lo = if bytes.len() >= 3 { bytes[2] } else { 48 };
        let tail = if bytes.len() >= 3 { bytes.skip(3) } else { Seq::<u8>::empty() };
        (match hex_pair_val_spec(hi, lo) {
            Some(v) => seq![v],
            None => Seq::<u8>::empty(),
        }) + decode_bytes_spec(tail)
    } else if bytes[0] == 43 {  // '+'
        seq![32u8] + decode_bytes_spec(bytes.skip(1))
    } else {
        seq![bytes[0]] + decode_bytes_spec(bytes.skip(1))
    }
}

/// What reading a byte sequence as UTF-8 returns, invalid sequences
/// replaced; a function of the bytes alone.
pub uninterp spec fn utf8_lossy_of(bytes: Seq<u8>) -> Seq<char>;

/// Relies on String::from_utf8_lossy: reads bytes as UTF-8, replacing
/// invalid sequences; valid UTF-8 reads back as exactly its scalar values.
#[verifier::external_body]
fn utf8_lossy(bytes: Vec<u8>) -> (r: String)
    ensures
        r@ == utf8_lossy_of(bytes@),
        vstd::utf8::valid_utf8(bytes@) ==> r@ == vstd::utf8::decode_utf8(bytes@),
{
    String::from_utf8_lossy(&bytes).into_owned()
}

fn hex_val(b: u8) -> (r: Option<u8>)
    ensures
        r == hex_val_spec(b),
{
    if 48 <= b && b <= 57 {
        Some(b - 48)
    } else if 97 <= b && b <= 102 {
        Some(b - 87)
    } else if 65 <= b && b <= 70 {
        Some(b - 55)
    } else {
        None
    }
}

fn hex_pair_val(hi: u8, lo: u8) -> (r: Option<u8>)
    ensures
        r == hex_pair_val_spec(hi, lo),
{
    if hi == 43 {
        hex_val(lo)
    } else {
        match (hex_val(hi), hex_val(lo)) {
            (Some(h), Some(l)) => Some(h * 16 + l),
            _ => None,
        }
    }
}

/// Relies on String::push: appends exactly one character to the string.
#[verifier::external_body]
pub(crate) fn push_char(s: &mut String, c: char)
    ensures
        final(s)@ == old(s)@.push(c),
{
    s.push(c);
}

/// Percent-encodes the UTF-8 bytes of `s`, leaving unreserved bytes as they
/// are and writing every other byte as `%` followed by two upper-case hex
/// digits.
pub fn urlencoding_encode(s: &str) -> (r: String)
    ensures
        r@ == encode_bytes_spec(encode_utf8(s@)),
{
    let bytes: Vec<u8> = s.as_bytes_vec();
    let n: usize = bytes.len();
    let mut r: String = String::new();
    let mut i: usize = 0;
    while i < n
        invariant
            n == bytes@.len(),
            i <= n,
            bytes@ == encode_utf8(s@),
            r@ == encode_bytes_spec(bytes@.take(i as int)),
        decreases n - i,
    {
        let b = bytes[i];
        if is_unreserved(b) {
            push_char(&mut r, b as char);
        } else {
            push_char(&mut r, '%');
            push_char(&mut r, hex_digit(b / 16));
            push_char(&mut r, hex_digit(b % 16));
        }
        proof {
            lemma_encode_bytes_push(bytes@.take(i as int), bytes@[i as int]);
            assert(bytes@.take(i as int).push(bytes@[i as int]) =~= bytes@.take(i + 1));
        }
        i = i + 1;
    }
    proof {
        assert(bytes@.take(n as int) =~= bytes@);
    }
    r
}

/// Percent-decodes a byte slice to bytes, as `decode_bytes_spec` describes.
fn percent_decode_bytes(bytes: &[u8]) -> (r: Vec<u8>)
    ensures
        r@ == decode_bytes_spec(bytes@),
{
    let n: usize = bytes.len();
    let mut r: Vec<u8> = Vec::new();
    let mut i: usize = 0;
    proof {
        assert(bytes@.skip(0) =~= bytes@);
        assert(Seq::<u8>::empty() + decode_bytes_spec(bytes@) =~= decode_bytes_spec(bytes@));
    }
    while i < n
        invariant
            n == bytes@.len(),
            i <= n,
            decode_bytes_spec(bytes@) == r@ + decode_bytes_spec(bytes@.skip(i as int)),
        decreases n - i,
    {
        let ghost s = bytes@.skip(i as int);
        let ghost r_before = r@;
        let b = *vstd::slice::slice_index_get(bytes, i);
        assert(s[0] == b);
        if b == 37 {
            let hi = if i + 1 < n { *vstd::slice::slice_index_get(bytes, i + 1) } else { 48 };
            let lo = if n - i >= 3 { *vstd::slice::slice_index_get(bytes, i + 2) } else { 48 };
            match hex_pair_val(hi, lo) {
                Some(v) => r.push(v),
                None => {},
            }
            let next: usize = if n - i >= 3 { i + 3 } else { n };
            proof {
                let piece = match hex_pair_val_spec(hi, lo) {
                    Some(v) => seq![v],
                    None => Seq::<u8>::empty(),
                };
                if n - i >= 3 {
                    assert(s.skip(3) =~= bytes@.skip(i + 3));
                } else {
                    assert(bytes@.skip(next as int) =~= Seq::<u8>::empty());
                }
                assert(decode_bytes_spec(s) == piece + decode_bytes_spec(
                    bytes@.skip(next as int),
                ));
                assert(r@ =~= r_before + piece);
                assert(r_before + (piece + decode_bytes_spec(bytes@.skip(next as int))) =~= (
                r_before + piece) + decode_bytes_spec(bytes@.skip(next as int)));
            }
            i = next;
        } else {
            if b == 43 {
                r.push(32);
            } else {
                r.push(b);
            }
            proof {
                let piece = if b == 43 { seq![32u8] } else { seq![b] };
                assert(s.skip(1) =~= bytes@.skip(i + 1));
                assert(decode_bytes_spec(s) == piece + decode_bytes_spec(bytes@.skip(i + 1)));
                assert(r@ =~= r_before + piece);
                assert(r_before + (piece + decode_bytes_spec(bytes@.skip(i + 1))) =~= (r_before
                    + piece) + decode_bytes_spec(bytes@.skip(i + 1)));
            }
            i = i + 1;
        }
    }
    proof {
        assert(bytes@.skip(n as int) =~= Seq::<u8>::empty());
        assert(r@ + Seq::<u8>::empty() =~= r@);
    }
    r
}

/// Percent-decodes the UTF-8 bytes of `s` and reads the decoded bytes back
/// as UTF-8, so that an encoded string decodes to itself whatever characters
/// it holds.
pub fn urlencoding_decode(s: &str) -> (r: String)
    ensures
        r@ == utf8_lossy_of(decode_bytes_spec(encode_utf8(s@))),
        vstd::utf8::valid_utf8(decode_bytes_spec(encode_utf8(s@))) ==> r@
            == vstd::utf8::decode_utf8(decode_bytes_spec(encode_utf8(s@))),
{
    utf8_lossy(percent_decode_bytes(s.as_bytes()))
}

/// Splitting a byte sequence on a separator; an empty input yields one empty
/// segment, as splitting a string does.
pub open spec fn split_bytes_spec(bytes: Seq<u8>, sep: u8) -> Seq<Seq<u8>>
    decreases bytes.len(),
{
    if bytes.len() == 0 {
        seq![Seq::<u8>::empty()]
    } else if bytes[0] == sep {
        seq![Seq::<u8>::empty()] + split_bytes_spec(bytes.skip(1), sep)
    } else {
        let rest = split_bytes_spec(bytes.skip(1), sep);
        seq![seq![bytes[0]] + rest[0]] + rest.skip(1)
    }
}

/// Splitting off the first segment: with `j` the index of the first separator
/// (or the length when there is none), the split is that segment followed by
/// the split of what comes after the separator.
pub proof fn lemma_split_first_segment(bytes: Seq<u8>, sep: u8, j: int)
    requires
        0 <= j <= bytes.len(),
        forall|k: int| 0 <= k < j ==> bytes[k] != sep,
        j == bytes.len() || bytes[j] == sep,
    ensures
        j == bytes.len() ==> split_bytes_spec(bytes, sep) == seq![bytes],
        j < bytes.len() ==> split_bytes_spec(bytes, sep) == seq![bytes.take(j)]
            + split_bytes_spec(bytes.skip(j + 1), sep),
    decreases j,
{
    if j == 0 {
        if bytes.len() == 0 {
            assert(seq![bytes] =~~= seq![Seq::<u8>::empty()]);
        } else {
            assert(bytes[0] == sep);
            assert(bytes.take(0) =~= Seq::<u8>::empty());
            assert(seq![bytes.take(0)] + split_bytes_spec(bytes.skip(1), sep) =~~= seq![
                Seq::<u8>::empty(),
            ] + split_bytes_spec(bytes.skip(1), sep));
        }
    } else {
        let tail = bytes.skip(1);
        assert(bytes[0] != sep);
        lemma_split_first_segment(tail, sep, j - 1);
        let rest = split_bytes_spec(tail, sep);
        if j == bytes.len() {
            assert(rest == seq![tail]);
            assert(rest[0] == tail);
            assert(seq![bytes[0]] + tail =~= bytes);
            assert(rest.skip(1) =~= Seq::<Seq<u8>>::empty());
            assert(split_bytes_spec(bytes, sep) =~~= seq![bytes]);
        } else {
            assert(rest == seq![tail.take(j - 1)] + split_bytes_spec(tail.skip(j), sep));
            assert(rest[0] == tail.take(j - 1));
            assert(seq![bytes[0]] + tail.take(j - 1) =~= bytes.take(j));
            assert(rest.skip(1) =~= split_bytes_spec(tail.skip(j), sep));
            assert(tail.skip(j) =~= bytes.skip(j + 1));
            assert(split_bytes_spec(bytes, sep) =~~= seq![bytes.take(j)] + split_bytes_spec(
                bytes.skip(j + 1),
                sep,
            ));
        }
    }
}

/// The part of a query pair before the first `=` (the whole pair if none).
pub open spec fn pair_key_spec(pair: Seq<u8>) -> Seq<u8>
    decreases pair.len(),
{
    if pair.len() == 0 {
        Seq::empty()
    } else if pair[0] == 61 {  // '='
        Seq::empty()
    } else {
        seq![pair[0]] + pair_key_spec(pair.skip(1))
    }
}

/// The part of a query pair after the first `=` (empty if none).
pub open spec fn pair_val_spec(pair: Seq<u8>) -> Seq<u8>
    decreases pair.len(),
{
    if pair.len() == 0 {
        Seq::empty()
    } else if pair[0] == 61 {  // '='
        pair.skip(1)
    } else {
        pair_val_spec(pair.skip(1))
    }
}

/// With `k` the index of the first `=` (or the length when there is none),
/// the key is what stands before it and the value what stands after it.
pub proof fn lemma_pair_split(pair: Seq<u8>, k: int)
    requires
        0 <= k <= pair.len(),
        forall|t: int| 0 <= t < k ==> pair[t] != 61,
        k == pair.len() || pair[k] == 61,
    ensures
        k == pair.len() ==> pair_key_spec(pair) == pair && pair_val_spec(pair)
            == Seq::<u8>::empty(),
        k < pair.len() ==> pair_key_spec(pair) == pair.take(k) && pair_val_spec(pair) == pair.skip(
            k + 1,
        ),
    decreases k,
{
    if k == 0 {
        if pair.len() == 0 {
        } else {
            assert(pair.take(0) =~= Seq::<u8>::empty());
        }
    } else {
        let tail = pair.skip(1);
        lemma_pair_split(tail, k - 1);
        if k == pair.len() {
            assert(seq![pair[0]] + tail =~= pair);
        } else {
            assert(seq![pair[0]] + tail.take(k - 1) =~= pair.take(k));
            assert(tail.skip(k) =~= pair.skip(k + 1));
        }
    }
}

/// The decoded key and value of one raw query pair.
pub open spec fn pair_fields_spec(p: Seq<u8>) -> (Seq<char>, Seq<char>) {
    (
        utf8_lossy_of(decode_bytes_spec(pair_key_spec(p))),
        utf8_lossy_of(decode_bytes_spec(pair_val_spec(p))),
    )
}

/// The decoded pairs of a sequence of raw segments, in order.
pub open spec fn parsed_pairs_spec(segs: Seq<Seq<u8>>) -> Seq<(Seq<char>, Seq<char>)> {
    segs.map_values(|p: Seq<u8>| pair_fields_spec(p))
}

/// The decoded (key, value) pairs of a query string, in order.
pub open spec fn parse_query_bytes_spec(bytes: Seq<u8>) -> Seq<(Seq<char>, Seq<char>)> {
    parsed_pairs_spec(split_bytes_spec(bytes, 38))
}

/// Splits a raw query on `&`, splits each pair on its first `=`, and
/// percent-decodes each key and value, keeping the pairs in order.
pub fn parse_query_slice(bytes: &[u8]) -> (r: Vec<(String, String)>)
    ensures
        r.deep_view() == parse_query_bytes_spec(bytes@),
{
    let n: usize = bytes.len();
    let mut r: Vec<(String, String)> = Vec::new();
    let mut i: usize = 0;
    proof {
        assert(bytes@.skip(0) =~= bytes@);
        assert(r.deep_view() + parsed_pairs_spec(split_bytes_spec(bytes@, 38))
            =~= parsed_pairs_spec(split_bytes_spec(bytes@, 38)));
    }
    loop
        invariant_except_break
            n == bytes@.len(),
            i <= n,
            parse_query_bytes_spec(bytes@) == r.deep_view() + parsed_pairs_spec(
                split_bytes_spec(bytes@.skip(i as int), 38),
            ),
        ensures
            r.deep_view() == parse_query_bytes_spec(bytes@),
        decreases n - i,
    {
        let ghost seg_start = i as int;
        let ghost s = bytes@.skip(seg_start);
        let mut j: usize = i;
        while j < n && *vstd::slice::slice_index_get(bytes, j) != 38
            invariant
                n == bytes@.len(),
                i <= j <= n,
                forall|k: int| i <= k < j ==> bytes@[k] != 38,
            decreases n - j,
        {
            j = j + 1;
        }
        let mut k: usize = i;
        while k < j && *vstd::slice::slice_index_get(bytes, k) != 61
            invariant
                n == bytes@.len(),
                i <= k <= j <= n,
                forall|t: int| i <= t < k ==> bytes@[t] != 61,
            decreases j - k,
        {
            k = k + 1;
        }
        let key = utf8_lossy(percent_decode_bytes(vstd::slice::slice_subrange(bytes, i, k)));
        let val = if k < j {
            utf8_lossy(percent_decode_bytes(vstd::slice::slice_subrange(bytes, k + 1, j)))
        } else {
            utf8_lossy(Vec::new())
        };
        let ghost r_before = r.deep_view();
        r.push((key, val));
        proof {
            let seg = s.take(j - seg_start);
            assert forall|t: int| 0 <= t < j - seg_start implies s[t] != 38 by {
                assert(s[t] == bytes@[seg_start + t]);
            }
            if j < n {
                assert(s[j - seg_start] == bytes@[j as int]);
            }
            lemma_split_first_segment(s, 38, j - seg_start);
            assert forall|t: int| 0 <= t < k - seg_start implies seg[t] != 61 by {
                assert(seg[t] == bytes@[seg_start + t]);
            }
            if k < j {
                assert(seg[k - seg_start] == bytes@[k as int]);
            }
            lemma_pair_split(seg, k - seg_start);
            if k < j {
                assert(seg.take(k - seg_start) =~= bytes@.subrange(seg_start, k as int));
                assert(seg.skip(k - seg_start + 1) =~= bytes@.subrange(k + 1, j as int));
            } else {
                assert(seg =~= bytes@.subrange(seg_start, k as int));
                assert(pair_val_spec(seg) =~= Seq::<u8>::empty());
            }
            assert(key@ == utf8_lossy_of(decode_bytes_spec(pair_key_spec(seg))));
            assert(val@ == utf8_lossy_of(decode_bytes_spec(pair_val_spec(seg))));
            assert((key@, val@) == pair_fields_spec(seg));
            assert(r.deep_view() =~= r_before.push(pair_fields_spec(seg)));
            assert(r_before.push(pair_fields_spec(seg)) =~= r_before + seq![
                pair_fields_spec(seg),
            ]);
            if j < n {
                assert(s.skip(j - seg_start + 1) =~= bytes@.skip(j + 1));
                assert(split_bytes_spec(s, 38) == seq![seg] + split_bytes_spec(
                    bytes@.skip(j + 1),
                    38,
                ));
                assert(parsed_pairs_spec(seq![seg] + split_bytes_spec(bytes@.skip(j + 1), 38))
                    =~= seq![pair_fields_spec(seg)] + parsed_pairs_spec(
                    split_bytes_spec(bytes@.skip(j + 1), 38),
                ));
                assert(r_before + (seq![pair_fields_spec(seg)] + parsed_pairs_spec(
                    split_bytes_spec(bytes@.skip(j + 1), 38),
                )) =~= (r_before + seq![pair_fields_spec(seg)]) + parsed_pairs_spec(
                    split_bytes_spec(bytes@.skip(j + 1), 38),
                ));
            } else {
                assert(seg =~= s);
                assert(split_bytes_spec(s, 38) == seq![s]);
                assert(parsed_pairs_spec(seq![s]) =~= seq![pair_fields_spec(s)]);
                assert(r.deep_view() =~= r_before + seq![pair_fields_spec(seg)]);
            }
        }
        if j < n {
            i = j + 1;
        } else {
            break;
        }
    }
    r
}


/// Splits a query string on `&`, splits each pair on its first `=`, and
/// percent-decodes each key and value, keeping the pairs in order.
pub fn parse_query_params(query: &str) -> (r: Vec<(String, String)>)
    ensures
        r.deep_view() == parse_query_bytes_spec(encode_utf8(query@)),
{
    parse_query_slice(query.as_bytes())
}

/// The bytes before the first occurrence of `sep` (the whole sequence when
/// there is none).
pub open spec fn before_byte_spec(bytes: Seq<u8>, sep: u8) -> Seq<u8>
    decreases bytes.len(),
{
    if bytes.len() == 0 {
        Seq::empty()
    } else if bytes[0] == sep {
        Seq::empty()
    } else {
        seq![bytes[0]] + before_byte_spec(bytes.skip(1), sep)
    }
}

/// The bytes after the first occurrence of `sep` (empty when there is none).
pub open spec fn after_byte_spec(bytes: Seq<u8>, sep: u8) -> Seq<u8>
    decreases bytes.len(),
{
    if bytes.len() == 0 {
        Seq::empty()
    } else if bytes[0] == sep {
        bytes.skip(1)
    } else {
        after_byte_spec(bytes.skip(1), sep)
    }
}

/// With `k` the index of the first `sep` (or the length when there is none),
/// `before` is what stands before it and `after` what stands after it.
pub proof fn lemma_before_after_split(bytes: Seq<u8>, sep: u8, k: int)
    requires
        0 <= k <= bytes.len(),
        forall|t: int| 0 <= t < k ==> bytes[t] != sep,
        k == bytes.len() || bytes[k] == sep,
    ensures
        k == bytes.len() ==> before_byte_spec(bytes, sep) == bytes && after_byte_spec(bytes, sep)
            == Seq::<u8>::empty(),
        k < bytes.len() ==> before_byte_spec(bytes, sep) == bytes.take(k) && after_byte_spec(
            bytes,
            sep,
        ) == bytes.skip(k + 1),
    decreases k,
{
    if k == 0 {
        if bytes.len() == 0 {
        } else {
            assert(bytes.take(0) =~= Seq::<u8>::empty());
        }
    } else {
        let tail = bytes.skip(1);
        lemma_before_after_split(tail, sep, k - 1);
        if k == bytes.len() {
            assert(seq![bytes[0]] + tail =~= bytes);
        } else {
            assert(seq![bytes[0]] + tail.take(k - 1) =~= bytes.take(k));
            assert(tail.skip(k) =~= bytes.skip(k + 1));
        }
    }
}

/// The decimal digits of a number, most significant first.
pub open spec fn dec_digits_spec(n: nat) -> Seq<char>
    decreases n,
{
    if n < 10 {
        seq![hex_digit_spec(n as u8)]
    } else {
        dec_digits_spec(n / 10).push(hex_digit_spec((n % 10) as u8))
    }
}

/// Renders a number in decimal.
pub fn u64_to_dec(n: u64) -> (r: String)
    ensures
        r@ == dec_digits_spec(n as nat),
    decreases n,
{
    if n < 10 {
        let mut r = String::new();
        push_char(&mut r, hex_digit(n as u8));
        proof {
            assert(Seq::<char>::empty().push(hex_digit_spec(n as u8)) =~= seq![
                hex_digit_spec(n as u8),
            ]);
        }
        r
    } else {
        let mut r = u64_to_dec(n / 10);
        push_char(&mut r, hex_digit((n % 10) as u8));
        r
    }
}

/// The value of the last pair whose key equals `name`, if any; when a query
/// repeats a key, the last occurrence wins, as it does in a map built by
/// inserting the pairs in order.
pub open spec fn lookup_pair_spec(pairs: Seq<(Seq<char>, Seq<char>)>, name: Seq<char>) -> Option<
    Seq<char>,
>
    decreases pairs.len(),
{
    if pairs.len() == 0 {
        None
    } else if pairs.last().0 == name {
        Some(pairs.last().1)
    } else {
        lookup_pair_spec(pairs.drop_last(), name)
    }
}

/// Looks a key up among parsed query pairs, later pairs taking precedence.
pub fn query_param(pairs: &Vec<(String, String)>, name: &str) -> (r: Option<String>)
    ensures
        r.deep_view() == lookup_pair_spec(pairs.deep_view(), name@),
{
    let name_owned = String::from_str(name);
    let n: usize = pairs.len();
    let mut i: usize = n;
    proof {
        assert(pairs.deep_view().len() == n);
        assert(pairs.deep_view().take(n as int) =~= pairs.deep_view());
    }
    while i > 0
        invariant
            n == pairs@.len(),
            pairs.deep_view().len() == n,
            i <= n,
            name_owned@ == name@,
            lookup_pair_spec(pairs.deep_view(), name@) == lookup_pair_spec(
                pairs.deep_view().take(i as int),
                name@,
            ),
        decreases i,
    {
        let pair = &pairs[i - 1];
        proof {
            assert(pairs.deep_view().take(i as int).last() == (pair.0@, pair.1@));
            assert(pairs.deep_view().take(i as int).drop_last() =~= pairs.deep_view().take(
                i - 1,
            ));
        }
        if pair.0 == name_owned {
            return Some(pair.1.clone());
        }
        i = i - 1;
    }
    proof {
        assert(pairs.deep_view().take(0) =~= Seq::<(Seq<char>, Seq<char>)>::empty());
    }
    None
}

/// The bytes of a sequence of ASCII chars.
pub open spec fn ascii_chars_as_bytes(s: Seq<char>) -> Seq<u8> {
    s.map_values(|c: char| c as u8)
}

proof fn lemma_hex_digit_round_trip(n: u8)
    requires
        n < 16,
    ensures
        hex_val_spec(hex_digit_spec(n) as u8) == Some(n),
        hex_digit_spec(n) as u8 != 43,
{
}

/// Every char that encoding produces is ASCII.
pub proof fn lemma_encode_output_ascii(bytes: Seq<u8>)
    ensures
        vstd::utf8::is_ascii_chars(encode_bytes_spec(bytes)),
    decreases bytes.len(),
{
    if bytes.len() == 0 {
    } else {
        lemma_encode_output_ascii(bytes.skip(1));
        assert forall|i: int| 0 <= i < encode_bytes_spec(bytes).len() implies '\0'
            <= #[trigger] encode_bytes_spec(bytes)[i] <= '\u{7f}' by {
            let head = encode_byte_spec(bytes[0]);
            if i < head.len() {
                assert(encode_bytes_spec(bytes)[i] == head[i]);
            } else {
                assert(encode_bytes_spec(bytes)[i] == encode_bytes_spec(bytes.skip(1))[i
                    - head.len()]);
            }
        }
    }
}

/// Percent-decoding what encoding produced gives every input byte back.
pub proof fn lemma_decode_of_encoded(bytes: Seq<u8>)
    ensures
        decode_bytes_spec(ascii_chars_as_bytes(encode_bytes_spec(bytes))) == bytes,
    decreases bytes.len(),
{
    if bytes.len() == 0 {
        assert(ascii_chars_as_bytes(encode_bytes_spec(bytes)) =~= Seq::<u8>::empty());
        assert(decode_bytes_spec(Seq::<u8>::empty()) =~= bytes);
    } else {
        let b = bytes[0];
        let rest = bytes.skip(1);
        lemma_decode_of_encoded(rest);
        let eb = ascii_chars_as_bytes(encode_bytes_spec(bytes));
        let tail = ascii_chars_as_bytes(encode_bytes_spec(rest));
        if is_unreserved_byte(b) {
            assert(eb[0] == b);
            assert(eb.skip(1) =~= tail);
            assert(b != 37 && b != 43);
            assert(decode_bytes_spec(eb) == seq![b] + decode_bytes_spec(tail));
        } else {
            let hi = hex_digit_spec((b / 16) as u8);
            let lo = hex_digit_spec((b % 16) as u8);
            assert(eb.len() == 3 + tail.len());
            assert(eb[0] == 37 && eb[1] == hi as u8 && eb[2] == lo as u8);
            lemma_hex_digit_round_trip((b / 16) as u8);
            lemma_hex_digit_round_trip((b % 16) as u8);
            assert(hex_pair_val_spec(eb[1], eb[2]) == Some((((b / 16) * 16) + (b % 16)) as u8));
            assert((((b / 16) * 16) + (b % 16)) as u8 == b);
            assert(eb.skip(3) =~= tail);
            assert(decode_bytes_spec(eb) == seq![b] + decode_bytes_spec(tail));
        }
        assert(bytes =~= seq![b] + rest);
    }
}

/// The round trip law: for every input, percent-decoding an encoded string
/// recovers the input's UTF-8 bytes exactly, and reading them back as UTF-8
/// gives the input string.
pub proof fn lemma_codec_round_trip(s: Seq<char>)
    ensures
        decode_bytes_spec(encode_utf8(encode_bytes_spec(encode_utf8(s)))) == encode_utf8(s),
        vstd::utf8::valid_utf8(decode_bytes_spec(encode_utf8(encode_bytes_spec(encode_utf8(s))))),
        vstd::utf8::decode_utf8(decode_bytes_spec(encode_utf8(encode_bytes_spec(encode_utf8(s)))))
            == s,
{
    let enc = encode_bytes_spec(encode_utf8(s));
    lemma_encode_output_ascii(encode_utf8(s));
    vstd::utf8::is_ascii_chars_encode_utf8(enc);
    assert(encode_utf8(enc) =~= ascii_chars_as_bytes(enc));
    lemma_decode_of_encoded(encode_utf8(s));
    vstd::utf8::encode_utf8_valid_utf8(s);
    vstd::utf8::encode_utf8_decode_utf8(s);
}

} // verus!
