//! Form-encoded queries: how names and values are written in a query, and read in it.

use vstd::prelude::*;
use vstd::utf8::{
    decode_utf8, encode_utf8, encode_utf8_decode_utf8, encode_utf8_valid_utf8, valid_utf8,
};

verus! {

/// The characters of names and values.
pub open spec fn pair_chars(pairs: Seq<(String, String)>) -> Seq<(Seq<char>, Seq<char>)> {
    Seq::new(pairs.len(), |i: int| (pairs[i].0@, pairs[i].1@))
}

/// The bytes that are written as they are.
pub open spec fn is_kept(b: u8) -> bool {
    ||| 0x61 <= b <= 0x7A
    ||| 0x41 <= b <= 0x5A
    ||| 0x30 <= b <= 0x39
    ||| b == 0x2A || b == 0x2D || b == 0x2E || b == 0x5F
}

/// The hexadecimal digit of a number below sixteen.
pub open spec fn hex_digit(n: int) -> char {
    if n < 10 {
        (0x30 + n) as char
    } else {
        (0x37 + n) as char
    }
}

/// A byte as it is written: itself, `+` for a space, or its number.
pub open spec fn encoded_byte(b: u8) -> Seq<char> {
    if is_kept(b) {
        seq![b as char]
    } else if b == 0x20 {
        seq!['+']
    } else {
        seq!['%', hex_digit(b as int / 16), hex_digit(b as int % 16)]
    }
}

/// Bytes as they are written.
pub open spec fn encoded_bytes(bytes: Seq<u8>) -> Seq<char>
    decreases bytes.len(),
{
    if bytes.len() == 0 {
        Seq::empty()
    } else {
        encoded_byte(bytes[0]) + encoded_bytes(bytes.skip(1))
    }
}

/// A name or a value as it is written.
pub open spec fn form_encoded(part: Seq<char>) -> Seq<char> {
    encoded_bytes(encode_utf8(part))
}

/// A name and a value as they are written.
pub open spec fn form_piece(pair: (Seq<char>, Seq<char>)) -> Seq<char> {
    form_encoded(pair.0) + seq!['='] + form_encoded(pair.1)
}

/// A form-encoded query with one more piece at its end.
pub open spec fn form_joined(query: Seq<char>, piece: Seq<char>) -> Seq<char> {
    if query.len() == 0 {
        piece
    } else {
        query + seq!['&'] + piece
    }
}

/// The form-encoded query of some names and values, in their order.
pub open spec fn form_query(pairs: Seq<(Seq<char>, Seq<char>)>) -> Seq<char>
    decreases pairs.len(),
{
    if pairs.len() == 0 {
        Seq::empty()
    } else {
        form_joined(form_query(pairs.drop_last()), form_piece(pairs.last()))
    }
}

/// The characters that occur in a form-encoded name or value.
pub open spec fn is_part_char(c: char) -> bool {
    ||| 'a' <= c <= 'z'
    ||| 'A' <= c <= 'Z'
    ||| '0' <= c <= '9'
    ||| c == '*' || c == '-' || c == '.' || c == '_'
    ||| c == '%' || c == '+'
}

/// Whether a query is made of the characters of form-encoded ones alone.
pub open spec fn is_form_text(query: Seq<char>) -> bool {
    forall|i: int|
        0 <= i < query.len() ==> is_part_char(#[trigger] query[i]) || query[i] == '=' || query[i]
            == '&'
}

/// The number that a hexadecimal digit stands for.
pub open spec fn hex_value(c: char) -> Option<int> {
    if '0' <= c <= '9' {
        Some(c as int - 0x30)
    } else if 'A' <= c <= 'F' {
        Some(c as int - 0x37)
    } else if 'a' <= c <= 'f' {
        Some(c as int - 0x57)
    } else {
        None
    }
}

/// The bytes that are read in a part of a query, which is ASCII.
pub open spec fn decoded(part: Seq<char>) -> Seq<u8>
    decreases part.len(),
{
    if part.len() == 0 {
        Seq::empty()
    } else if part[0] == '%' && part.len() >= 3 && hex_value(part[1]) is Some && hex_value(
        part[2],
    ) is Some {
        seq![(16 * hex_value(part[1])->0 + hex_value(part[2])->0) as u8] + decoded(part.skip(3))
    } else {
        seq![
            if part[0] == '+' {
                0x20u8
            } else {
                part[0] as u8
            },
        ] + decoded(part.skip(1))
    }
}

/// Where a character occurs first; the length of the text where it does not.
pub open spec fn first(s: Seq<char>, c: char) -> nat
    decreases s.len(),
{
    if s.len() == 0 || s[0] == c {
        0
    } else {
        1 + first(s.skip(1), c)
    }
}

/// What follows a position of a text and the character there; nothing at its end.
pub open spec fn after(s: Seq<char>, position: nat) -> Seq<char> {
    if position < s.len() {
        s.skip(position as int + 1)
    } else {
        Seq::empty()
    }
}

/// The bytes of the name and the value in a piece: what is before the first `=` and after it.
pub open spec fn read_piece(piece: Seq<char>) -> (Seq<u8>, Seq<u8>) {
    let i = first(piece, '=');
    (decoded(piece.take(i as int)), decoded(after(piece, i)))
}

/// The bytes of the names and values in a query: its pieces between `&` that are not empty.
pub open spec fn read_pieces(query: Seq<char>) -> Seq<(Seq<u8>, Seq<u8>)>
    decreases query.len(),
{
    if query.len() == 0 {
        Seq::empty()
    } else {
        let i = first(query, '&');
        if i == 0 {
            read_pieces(after(query, i))
        } else {
            seq![read_piece(query.take(i as int))] + read_pieces(after(query, i))
        }
    }
}

/// Whether the bytes of every name and value in a query are a text.
pub open spec fn is_clean(query: Seq<char>) -> bool {
    forall|i: int|
        0 <= i < read_pieces(query).len() ==> valid_utf8((#[trigger] read_pieces(query)[i]).0)
            && valid_utf8(read_pieces(query)[i].1)
}

/// The names and values in a query whose bytes are texts.
pub open spec fn clean_pairs(query: Seq<char>) -> Seq<(Seq<char>, Seq<char>)> {
    Seq::new(
        read_pieces(query).len(),
        |i: int| (decode_utf8(read_pieces(query)[i].0), decode_utf8(read_pieces(query)[i].1)),
    )
}

/// What `form_urlencoded::parse` reads in a query.
pub uninterp spec fn form_pairs(query: Seq<char>) -> Seq<(Seq<char>, Seq<char>)>;

/// The names and values in a query.
pub open spec fn pairs_in(query: Seq<char>) -> Seq<(Seq<char>, Seq<char>)> {
    if is_clean(query) {
        clean_pairs(query)
    } else {
        form_pairs(query)
    }
}

/// Calls `form_urlencoded::Serializer::new` on an empty target and finishes it: the query of
/// no pairs.
#[verifier::external_body]
fn outside_new_query() -> (query: String)
    ensures
        query@.len() == 0,
{
    url::form_urlencoded::Serializer::new(String::new()).finish()
}

/// Calls `form_urlencoded::Serializer::append_pair` on a query. It writes `&` after what is
/// there already, then the encoded name, `=` and the encoded value.
#[verifier::external_body]
fn outside_append_pair(query: String, name: &str, value: &str) -> (longer: String)
    ensures
        longer@ == form_joined(query@, form_piece((name@, value@))),
{
    url::form_urlencoded::Serializer::new(query).append_pair(name, value).finish()
}

/// Writes the form-encoded query of some names and values, in their order.
pub fn write_query(pairs: &Vec<(String, String)>) -> (query: String)
    ensures
        query@ == form_query(pair_chars(pairs@)),
{
    let mut query = outside_new_query();
    let mut i: usize = 0;
    while i < pairs.len()
        invariant
            i <= pairs@.len(),
            query@ == form_query(pair_chars(pairs@).take(i as int)),
        decreases pairs@.len() - i,
    {
        proof {
            let longer = pair_chars(pairs@).take(i + 1);
            assert(longer.drop_last() == pair_chars(pairs@).take(i as int));
        }
        query = outside_append_pair(query, pairs[i].0.as_str(), pairs[i].1.as_str());
        i += 1;
    }
    proof {
        assert(pair_chars(pairs@).take(i as int) == pair_chars(pairs@));
    }
    query
}

proof fn lemma_byte_char(b: u8)
    requires
        b < 0x80,
    ensures
        (b as char) as u8 == b,
        (b as char) as int == b,
{
}

proof fn lemma_hex(n: int)
    requires
        0 <= n < 16,
    ensures
        hex_value(hex_digit(n)) == Some(n),
        is_part_char(hex_digit(n)),
{
    assert(n < 10 ==> hex_digit(n) as int == 0x30 + n);
    assert(n >= 10 ==> hex_digit(n) as int == 0x37 + n);
}

proof fn lemma_encoded_chars(bytes: Seq<u8>)
    ensures
        forall|i: int|
            0 <= i < encoded_bytes(bytes).len() ==> is_part_char(#[trigger] encoded_bytes(bytes)[i]),
    decreases bytes.len(),
{
    if bytes.len() > 0 {
        let b = bytes[0];
        lemma_encoded_chars(bytes.skip(1));
        if is_kept(b) {
            lemma_byte_char(b);
        } else {
            lemma_hex(b as int / 16);
            lemma_hex(b as int % 16);
        }
        let head = encoded_byte(b);
        let tail = encoded_bytes(bytes.skip(1));
        assert forall|i: int| 0 <= i < encoded_bytes(bytes).len() implies is_part_char(
            #[trigger] encoded_bytes(bytes)[i],
        ) by {
            if i >= head.len() {
                assert(encoded_bytes(bytes)[i] == tail[i - head.len()]);
            }
        }
    }
}

proof fn lemma_decoded(bytes: Seq<u8>)
    ensures
        decoded(encoded_bytes(bytes)) == bytes,
    decreases bytes.len(),
{
    if bytes.len() > 0 {
        let b = bytes[0];
        let whole = encoded_bytes(bytes);
        let tail = encoded_bytes(bytes.skip(1));
        lemma_decoded(bytes.skip(1));
        assert(seq![b] + bytes.skip(1) == bytes);
        if is_kept(b) {
            lemma_byte_char(b);
            assert(whole.skip(1) == tail);
        } else if b == 0x20 {
            assert(whole.skip(1) == tail);
        } else {
            lemma_hex(b as int / 16);
            lemma_hex(b as int % 16);
            assert(whole.skip(3) == tail);
        }
    }
}

/// Where a character that a text lacks occurs first once it follows.
pub proof fn lemma_first(s: Seq<char>, c: char, rest: Seq<char>)
    requires
        forall|i: int| 0 <= i < s.len() ==> #[trigger] s[i] != c,
    ensures
        first(s, c) == s.len(),
        first(s + seq![c] + rest, c) == s.len(),
    decreases s.len(),
{
    let whole = s + seq![c] + rest;
    if s.len() > 0 {
        assert forall|i: int| 0 <= i < s.skip(1).len() implies #[trigger] s.skip(1)[i] != c by {
            assert(s[i + 1] != c);
        }
        lemma_first(s.skip(1), c, rest);
        assert(whole.skip(1) == s.skip(1) + seq![c] + rest);
        assert(whole[0] == s[0]);
    } else {
        assert(whole[0] == c);
    }
}

proof fn lemma_first_within(s: Seq<char>, c: char)
    ensures
        first(s, c) <= s.len(),
        first(s, c) < s.len() ==> s[first(s, c) as int] == c,
        forall|i: int| 0 <= i < first(s, c) ==> #[trigger] s[i] != c,
    decreases s.len(),
{
    if s.len() > 0 && s[0] != c {
        lemma_first_within(s.skip(1), c);
        assert forall|i: int| 0 <= i < first(s, c) implies #[trigger] s[i] != c by {
            if i > 0 {
                assert(s.skip(1)[i - 1] != c);
            }
        }
    }
}

proof fn lemma_piece(pair: (Seq<char>, Seq<char>))
    ensures
        read_piece(form_piece(pair)) == (encode_utf8(pair.0), encode_utf8(pair.1)),
        form_piece(pair).len() > 0,
        forall|i: int|
            0 <= i < form_piece(pair).len() ==> is_part_char(#[trigger] form_piece(pair)[i])
                || form_piece(pair)[i] == '=',
{
    let name = form_encoded(pair.0);
    let value = form_encoded(pair.1);
    let piece = form_piece(pair);
    lemma_encoded_chars(encode_utf8(pair.0));
    lemma_encoded_chars(encode_utf8(pair.1));
    lemma_decoded(encode_utf8(pair.0));
    lemma_decoded(encode_utf8(pair.1));
    lemma_first(name, '=', value);
    assert(piece.take(name.len() as int) == name);
    assert(piece.skip(name.len() as int + 1) == value);
    assert forall|i: int| 0 <= i < piece.len() implies is_part_char(#[trigger] piece[i]) || piece[i]
        == '=' by {
        if i < name.len() {
            assert(piece[i] == name[i]);
        } else if i > name.len() {
            assert(piece[i] == value[i - name.len() - 1]);
        }
    }
}

proof fn lemma_one_piece(piece: Seq<char>)
    requires
        piece.len() > 0,
        forall|i: int| 0 <= i < piece.len() ==> #[trigger] piece[i] != '&',
    ensures
        read_pieces(piece) == seq![read_piece(piece)],
{
    lemma_first(piece, '&', Seq::empty());
    assert(piece.take(piece.len() as int) == piece);
    assert(read_pieces(after(piece, piece.len())) == Seq::<(Seq<u8>, Seq<u8>)>::empty());
}

proof fn lemma_more_pieces(query: Seq<char>, piece: Seq<char>)
    requires
        piece.len() > 0,
        forall|i: int| 0 <= i < piece.len() ==> #[trigger] piece[i] != '&',
    ensures
        read_pieces(query + seq!['&'] + piece) == read_pieces(query).push(read_piece(piece)),
    decreases query.len(),
{
    let whole = query + seq!['&'] + piece;
    lemma_one_piece(piece);
    if query.len() == 0 {
        assert(whole.skip(1) == piece);
        assert(first(whole, '&') == 0);
        assert(read_pieces(query).push(read_piece(piece)) == seq![read_piece(piece)]);
    } else {
        let i = first(query, '&');
        lemma_first_within(query, '&');
        let start = query.take(i as int);
        assert forall|k: int| 0 <= k < start.len() implies #[trigger] start[k] != '&' by {
            assert(query[k] != '&');
        }
        if i < query.len() {
            let rest = query.skip(i as int + 1);
            lemma_more_pieces(rest, piece);
            let longer = rest + seq!['&'] + piece;
            assert(whole == start + seq!['&'] + longer);
            lemma_first(start, '&', longer);
            assert(whole.skip(i as int + 1) == longer);
            assert(whole.take(i as int) == start);
        } else {
            assert(start == query);
            lemma_first(query, '&', piece);
            assert(whole.skip(i as int + 1) == piece);
            assert(whole.take(i as int) == query);
            assert(read_pieces(query) == seq![read_piece(query)]) by {
                lemma_one_piece(query);
            }
        }
        assert(read_pieces(whole) == read_pieces(query).push(read_piece(piece)));
    }
}

proof fn lemma_written_pieces(pairs: Seq<(Seq<char>, Seq<char>)>)
    ensures
        is_form_text(form_query(pairs)),
        form_query(pairs).len() == 0 ==> pairs.len() == 0,
        read_pieces(form_query(pairs)) == Seq::new(
            pairs.len(),
            |i: int| (encode_utf8(pairs[i].0), encode_utf8(pairs[i].1)),
        ),
    decreases pairs.len(),
{
    let query = form_query(pairs);
    let bytes = Seq::new(
        pairs.len(),
        |i: int| (encode_utf8(pairs[i].0), encode_utf8(pairs[i].1)),
    );
    if pairs.len() == 0 {
        assert(read_pieces(query) == bytes);
    } else {
        let earlier = form_query(pairs.drop_last());
        let piece = form_piece(pairs.last());
        lemma_written_pieces(pairs.drop_last());
        lemma_piece(pairs.last());
        assert forall|i: int| 0 <= i < piece.len() implies #[trigger] piece[i] != '&' by {
            assert(is_part_char(piece[i]) || piece[i] == '=');
        }
        assert(bytes == bytes.drop_last().push(bytes.last()));
        assert(bytes.drop_last() == read_pieces(earlier));
        if earlier.len() == 0 {
            lemma_one_piece(piece);
            assert(read_pieces(query) == bytes);
        } else {
            lemma_more_pieces(earlier, piece);
            assert forall|i: int| 0 <= i < query.len() implies is_part_char(#[trigger] query[i])
                || query[i] == '=' || query[i] == '&' by {
                if i < earlier.len() {
                    assert(query[i] == earlier[i]);
                } else if i > earlier.len() {
                    assert(query[i] == piece[i - earlier.len() - 1]);
                }
            }
        }
    }
}

/// A query that is written holds nothing but texts, the names and values that are written in it, in
/// their order.
pub proof fn law_written_query_is_clean(pairs: Seq<(Seq<char>, Seq<char>)>)
    ensures
        is_clean(form_query(pairs)),
        clean_pairs(form_query(pairs)) == pairs,
        pairs.len() == 0 ==> form_query(pairs).len() == 0,
        pairs.len() > 0 ==> form_query(pairs).len() > 0,
{
    let query = form_query(pairs);
    lemma_written_pieces(pairs);
    assert forall|i: int| 0 <= i < read_pieces(query).len() implies valid_utf8(
        (#[trigger] read_pieces(query)[i]).0,
    ) && valid_utf8(read_pieces(query)[i].1) by {
        encode_utf8_valid_utf8(pairs[i].0);
        encode_utf8_valid_utf8(pairs[i].1);
    }
    assert forall|i: int| 0 <= i < pairs.len() implies #[trigger] clean_pairs(query)[i]
        == pairs[i] by {
        encode_utf8_decode_utf8(pairs[i].0);
        encode_utf8_decode_utf8(pairs[i].1);
    }
    assert(clean_pairs(query) =~= pairs);
}

/// The names and values that are written in a query are read in it, in their order. The query is
/// empty only where there are none.
pub proof fn law_written_query_is_read_back(pairs: Seq<(Seq<char>, Seq<char>)>)
    ensures
        pairs_in(form_query(pairs)) == pairs,
        is_form_text(form_query(pairs)),
        form_query(pairs).len() == 0 ==> pairs.len() == 0,
{
    lemma_written_pieces(pairs);
    law_written_query_is_clean(pairs);
}

} // verus!
