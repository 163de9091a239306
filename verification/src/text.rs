//! Seven-bit text handling on byte buffers.
//!
//! The native layer reports names, extension lists and kernel-name lists as
//! byte strings; this module holds the verified text logic the wrappers need:
//! splitting on a separator, case folding, substring search, and the single
//! conversion from checked seven-bit bytes to an owned `String`.

use vstd::prelude::*;
use crate::bytes::{is_ascii_bytes, is_text_bytes, ascii_chars};
use vstd::string::StringSliceAdditionalSpecFns;

verus! {

/// The pieces of `s` cut at every occurrence of `sep`; splitting the empty
/// sequence gives one empty piece, as the standard splitters do.
pub open spec fn split_bytes(s: Seq<u8>, sep: u8) -> Seq<Seq<u8>>
    decreases s.len(),
{
    if s.len() == 0 {
        seq![Seq::empty()]
    } else if s[0] == sep {
        seq![Seq::<u8>::empty()] + split_bytes(s.skip(1), sep)
    } else {
        let rest = split_bytes(s.skip(1), sep);
        rest.update(0, seq![s[0]] + rest[0])
    }
}

pub proof fn lemma_split_bytes_nonempty(s: Seq<u8>, sep: u8)
    ensures
        split_bytes(s, sep).len() >= 1,
    decreases s.len(),
{
    if s.len() > 0 {
        lemma_split_bytes_nonempty(s.skip(1), sep);
    }
}

/// The views of a sequence of byte vectors.
pub open spec fn views_of(s: Seq<Vec<u8>>) -> Seq<Seq<u8>> {
    s.map_values(|v: Vec<u8>| v@)
}

/// Split `s` (from index `from` on) at every occurrence of `sep`.
pub fn split_vec_from(s: &Vec<u8>, from: usize, sep: u8) -> (r: Vec<Vec<u8>>)
    requires
        from <= s@.len(),
    ensures
        views_of(r@) == split_bytes(s@.skip(from as int), sep),
    decreases s@.len() - from,
{
    let n: usize = s.len();
    if from == n {
        let mut r: Vec<Vec<u8>> = Vec::new();
        r.push(Vec::new());
        proof {
            assert(s@.skip(from as int) =~= Seq::<u8>::empty());
            assert(views_of(r@) =~= split_bytes(s@.skip(from as int), sep));
        }
        r
    } else if s[from] == sep {
        let mut r = split_vec_from(s, from + 1, sep);
        r.insert(0, Vec::new());
        proof {
            assert(s@.skip(from as int).skip(1) =~= s@.skip(from + 1));
            assert(s@.skip(from as int)[0] == sep);
            assert(views_of(r@) =~= split_bytes(s@.skip(from as int), sep));
        }
        r
    } else {
        let c: u8 = s[from];
        let mut r = split_vec_from(s, from + 1, sep);
        proof {
            lemma_split_bytes_nonempty(s@.skip(from + 1), sep);
            assert(views_of(r@).len() >= 1);
        }
        let mut first: Vec<u8> = Vec::new();
        first.push(c);
        let old_first: Vec<u8> = r.remove(0);
        let mut piece = first;
        let mut k: usize = 0;
        let m: usize = old_first.len();
        while k < m
            invariant
                k <= m,
                m == old_first@.len(),
                piece@ == seq![c] + old_first@.take(k as int),
            decreases m - k,
        {
            piece.push(old_first[k]);
            proof {
                assert(seq![c] + old_first@.take(k + 1) =~= (seq![c] + old_first@.take(k as int)).push(
                    old_first@[k as int],
                ));
            }
            k = k + 1;
        }
        r.insert(0, piece);
        proof {
            assert(old_first@.take(m as int) =~= old_first@);
            assert(s@.skip(from as int).skip(1) =~= s@.skip(from + 1));
            assert(s@.skip(from as int)[0] == c);
            assert(views_of(r@) =~= split_bytes(s@.skip(from as int), sep));
        }
        r
    }
}

/// Split a whole buffer at every occurrence of `sep`.
pub fn split_vec(s: &Vec<u8>, sep: u8) -> (r: Vec<Vec<u8>>)
    ensures
        views_of(r@) == split_bytes(s@, sep),
{
    let r = split_vec_from(s, 0, sep);
    proof {
        assert(s@.skip(0) =~= s@);
    }
    r
}

/// Splitting seven-bit text yields seven-bit pieces.
pub proof fn lemma_split_ascii(s: Seq<u8>, sep: u8)
    requires
        is_ascii_bytes(s),
    ensures
        forall|i: int|
            0 <= i < split_bytes(s, sep).len() ==> is_ascii_bytes(
                #[trigger] split_bytes(s, sep)[i],
            ),
    decreases s.len(),
{
    if s.len() == 0 {
    } else if s[0] == sep {
        assert(is_ascii_bytes(s.skip(1))) by {
            assert(forall|k: int| 0 <= k < s.skip(1).len() ==> s.skip(1)[k] == s[k + 1]);
        }
        lemma_split_ascii(s.skip(1), sep);
        assert forall|i: int| 0 <= i < split_bytes(s, sep).len() implies is_ascii_bytes(
            #[trigger] split_bytes(s, sep)[i],
        ) by {
            if i > 0 {
                assert(split_bytes(s, sep)[i] == split_bytes(s.skip(1), sep)[i - 1]);
            }
        }
    } else {
        assert(is_ascii_bytes(s.skip(1))) by {
            assert(forall|k: int| 0 <= k < s.skip(1).len() ==> s.skip(1)[k] == s[k + 1]);
        }
        lemma_split_ascii(s.skip(1), sep);
        lemma_split_bytes_nonempty(s.skip(1), sep);
        let rest = split_bytes(s.skip(1), sep);
        assert forall|i: int| 0 <= i < split_bytes(s, sep).len() implies is_ascii_bytes(
            #[trigger] split_bytes(s, sep)[i],
        ) by {
            if i == 0 {
                assert(split_bytes(s, sep)[0] == seq![s[0]] + rest[0]);
                assert(is_ascii_bytes(rest[0]));
                assert(forall|k: int|
                    0 <= k < (seq![s[0]] + rest[0]).len() ==> (seq![s[0]] + rest[0])[k] < 128);
            } else {
                assert(split_bytes(s, sep)[i] == rest[i]);
            }
        }
    }
}

/// The text pieces of a seven-bit buffer cut at a separator.
pub open spec fn split_text(t: Seq<u8>, sep: u8) -> Seq<Seq<char>> {
    split_bytes(t, sep).map_values(|p: Seq<u8>| ascii_chars(p))
}

/// Split seven-bit text at a separator into owned strings.
pub fn split_to_strings(t: &Vec<u8>, sep: u8) -> (r: Vec<String>)
    requires
        is_ascii_bytes(t@),
    ensures
        r@.map_values(|s: String| s@) == split_text(t@, sep),
{
    proof {
        lemma_split_ascii(t@, sep);
    }
    let pieces = split_vec(t, sep);
    let n: usize = pieces.len();
    let mut out: Vec<String> = Vec::new();
    let mut i: usize = 0;
    while i < n
        invariant
            i <= n,
            n == pieces@.len(),
            views_of(pieces@) == split_bytes(t@, sep),
            forall|k: int|
                0 <= k < split_bytes(t@, sep).len() ==> is_ascii_bytes(
                    #[trigger] split_bytes(t@, sep)[k],
                ),
            out@.len() == i,
            forall|k: int| 0 <= k < i ==> #[trigger] out@[k]@ == ascii_chars(views_of(pieces@)[k]),
        decreases n - i,
    {
        let piece = copy_piece(&pieces, i);
        proof {
            assert(views_of(pieces@)[i as int] == pieces@[i as int]@);
        }
        let s = ascii_to_string(piece);
        out.push(s);
        i = i + 1;
    }
    proof {
        assert(out@.map_values(|s: String| s@) =~= split_text(t@, sep));
    }
    out
}

/// Copy one piece out of a list of byte buffers.
fn copy_piece(pieces: &Vec<Vec<u8>>, i: usize) -> (r: Vec<u8>)
    requires
        i < pieces@.len(),
    ensures
        r@ == pieces@[i as int]@,
{
    let src = &pieces[i];
    let m: usize = src.len();
    let mut r: Vec<u8> = Vec::new();
    let mut k: usize = 0;
    while k < m
        invariant
            k <= m,
            m == src@.len(),
            src@ == pieces@[i as int]@,
            r@ == src@.take(k as int),
        decreases m - k,
    {
        r.push(src[k]);
        proof {
            assert(src@.take(k + 1) =~= src@.take(k as int).push(src@[k as int]));
        }
        k = k + 1;
    }
    proof {
        assert(src@.take(m as int) =~= src@);
    }
    r
}

/// The byte image of seven-bit text, one byte per character.
pub open spec fn bytes_of_text(s: Seq<char>) -> Seq<u8> {
    Seq::new(s.len(), |i: int| s[i] as u8)
}

/// Copy a seven-bit string slice into its byte image.
pub fn str_to_bytes(s: &str) -> (r: Vec<u8>)
    requires
        s.is_ascii(),
    ensures
        r@ == bytes_of_text(s@),
        r@ == s.spec_bytes(),
        is_ascii_bytes(r@),
{
    proof {
        vstd::utf8::is_ascii_chars_encode_utf8(s@);
        vstd::utf8::is_ascii_chars_nat_bound(s@);
    }
    let r = s.as_bytes_vec();
    proof {
        assert(r@ =~= bytes_of_text(s@));
    }
    r
}

/// A seven-bit whitespace byte: tab, line feed, vertical tab, form feed,
/// carriage return or space.
pub open spec fn is_space_byte(b: u8) -> bool {
    b == 9 || b == 10 || b == 11 || b == 12 || b == 13 || b == 32
}

/// Is `b` a seven-bit whitespace byte?
pub fn check_space_byte(b: u8) -> (r: bool)
    ensures
        r == is_space_byte(b),
{
    b == 9 || b == 10 || b == 11 || b == 12 || b == 13 || b == 32
}

/// The whitespace-separated tokens of `s`, in order: runs of whitespace
/// separate tokens, no token is empty, and the empty buffer has no tokens,
/// as the standard whitespace splitter behaves.
pub open spec fn split_tokens(s: Seq<u8>) -> Seq<Seq<u8>>
    decreases s.len(),
{
    if s.len() == 0 {
        Seq::empty()
    } else if is_space_byte(s[0]) {
        split_tokens(s.skip(1))
    } else if s.len() == 1 {
        seq![seq![s[0]]]
    } else if is_space_byte(s[1]) {
        seq![seq![s[0]]] + split_tokens(s.skip(1))
    } else {
        let rest = split_tokens(s.skip(1));
        rest.update(0, seq![s[0]] + rest[0])
    }
}

/// A buffer that starts with a non-space byte starts its first token.
pub proof fn lemma_split_tokens_head(s: Seq<u8>)
    requires
        s.len() > 0,
        !is_space_byte(s[0]),
    ensures
        split_tokens(s).len() >= 1,
        split_tokens(s)[0].len() >= 1,
        split_tokens(s)[0][0] == s[0],
    decreases s.len(),
{
    if s.len() == 1 {
    } else if is_space_byte(s[1]) {
        assert(split_tokens(s)[0] == seq![s[0]]);
    } else {
        assert(s.skip(1)[0] == s[1]);
        lemma_split_tokens_head(s.skip(1));
        let rest = split_tokens(s.skip(1));
        assert(split_tokens(s)[0] == seq![s[0]] + rest[0]);
    }
}

/// Every whitespace token is non-empty, and tokens of seven-bit text are
/// seven-bit.
pub proof fn lemma_split_tokens_props(s: Seq<u8>)
    requires
        is_ascii_bytes(s),
    ensures
        forall|i: int|
            0 <= i < split_tokens(s).len() ==> (#[trigger] split_tokens(s)[i]).len() >= 1
                && is_ascii_bytes(split_tokens(s)[i]),
    decreases s.len(),
{
    if s.len() == 0 {
    } else {
        assert(is_ascii_bytes(s.skip(1))) by {
            assert(forall|k: int| 0 <= k < s.skip(1).len() ==> s.skip(1)[k] == s[k + 1]);
        }
        lemma_split_tokens_props(s.skip(1));
        let rest = split_tokens(s.skip(1));
        if is_space_byte(s[0]) {
        } else if s.len() == 1 {
            assert(split_tokens(s)[0] == seq![s[0]]);
            assert(is_ascii_bytes(seq![s[0]]));
        } else if is_space_byte(s[1]) {
            assert forall|i: int|
                0 <= i < split_tokens(s).len() implies (#[trigger] split_tokens(s)[i]).len() >= 1
                    && is_ascii_bytes(split_tokens(s)[i]) by {
                if i == 0 {
                    assert(split_tokens(s)[0] == seq![s[0]]);
                    assert(is_ascii_bytes(seq![s[0]]));
                } else {
                    assert(split_tokens(s)[i] == rest[i - 1]);
                }
            }
        } else {
            assert(s.skip(1)[0] == s[1]);
            lemma_split_tokens_head(s.skip(1));
            assert forall|i: int|
                0 <= i < split_tokens(s).len() implies (#[trigger] split_tokens(s)[i]).len() >= 1
                    && is_ascii_bytes(split_tokens(s)[i]) by {
                if i == 0 {
                    assert(split_tokens(s)[0] == seq![s[0]] + rest[0]);
                    assert(is_ascii_bytes(rest[0]));
                    assert(forall|k: int|
                        0 <= k < (seq![s[0]] + rest[0]).len() ==> (seq![s[0]] + rest[0])[k]
                            < 128);
                } else {
                    assert(split_tokens(s)[i] == rest[i]);
                }
            }
        }
    }
}

/// Collect the whitespace tokens of `s` from index `from` on.
fn tokens_from(s: &Vec<u8>, from: usize) -> (r: Vec<Vec<u8>>)
    requires
        from <= s@.len(),
    ensures
        views_of(r@) == split_tokens(s@.skip(from as int)),
    decreases s@.len() - from,
{
    let n: usize = s.len();
    if from == n {
        let r: Vec<Vec<u8>> = Vec::new();
        proof {
            assert(s@.skip(from as int) =~= Seq::<u8>::empty());
            assert(views_of(r@) =~= split_tokens(s@.skip(from as int)));
        }
        r
    } else if check_space_byte(s[from]) {
        let r = tokens_from(s, from + 1);
        proof {
            assert(s@.skip(from as int)[0] == s@[from as int]);
            assert(s@.skip(from as int).skip(1) =~= s@.skip(from + 1));
        }
        r
    } else if from + 1 == n {
        let mut tok: Vec<u8> = Vec::new();
        tok.push(s[from]);
        let mut r: Vec<Vec<u8>> = Vec::new();
        r.push(tok);
        proof {
            assert(s@.skip(from as int).len() == 1);
            assert(s@.skip(from as int)[0] == s@[from as int]);
            assert(views_of(r@) =~= split_tokens(s@.skip(from as int)));
        }
        r
    } else if check_space_byte(s[from + 1]) {
        let mut r = tokens_from(s, from + 1);
        let mut tok: Vec<u8> = Vec::new();
        tok.push(s[from]);
        r.insert(0, tok);
        proof {
            assert(s@.skip(from as int)[0] == s@[from as int]);
            assert(s@.skip(from as int)[1] == s@[from + 1]);
            assert(s@.skip(from as int).skip(1) =~= s@.skip(from + 1));
            assert(views_of(r@) =~= split_tokens(s@.skip(from as int)));
        }
        r
    } else {
        let c: u8 = s[from];
        let mut r = tokens_from(s, from + 1);
        proof {
            assert(s@.skip(from + 1)[0] == s@[from + 1]);
            lemma_split_tokens_head(s@.skip(from + 1));
            assert(views_of(r@).len() >= 1);
        }
        let old_first: Vec<u8> = r.remove(0);
        let mut piece: Vec<u8> = Vec::new();
        piece.push(c);
        let m: usize = old_first.len();
        let mut k: usize = 0;
        while k < m
            invariant
                k <= m,
                m == old_first@.len(),
                piece@ == seq![c] + old_first@.take(k as int),
            decreases m - k,
        {
            piece.push(old_first[k]);
            proof {
                assert(seq![c] + old_first@.take(k + 1) =~= (seq![c] + old_first@.take(
                    k as int,
                )).push(old_first@[k as int]));
            }
            k = k + 1;
        }
        r.insert(0, piece);
        proof {
            assert(old_first@.take(m as int) =~= old_first@);
            assert(s@.skip(from as int)[0] == c);
            assert(s@.skip(from as int)[1] == s@[from + 1]);
            assert(s@.skip(from as int).skip(1) =~= s@.skip(from + 1));
            assert(views_of(r@) =~= split_tokens(s@.skip(from as int)));
        }
        r
    }
}

/// Collect the whitespace tokens of a whole buffer.
pub fn split_tokens_vec(s: &Vec<u8>) -> (r: Vec<Vec<u8>>)
    ensures
        views_of(r@) == split_tokens(s@),
{
    let r = tokens_from(s, 0);
    proof {
        assert(s@.skip(0) =~= s@);
    }
    r
}

/// The whitespace tokens of seven-bit text, as character sequences.
pub open spec fn split_tokens_text(t: Seq<u8>) -> Seq<Seq<char>> {
    split_tokens(t).map_values(|p: Seq<u8>| ascii_chars(p))
}

/// Split seven-bit text into its whitespace-separated tokens as owned
/// strings: no token is empty, and empty text yields no tokens.
pub fn split_to_token_strings(t: &Vec<u8>) -> (r: Vec<String>)
    requires
        is_ascii_bytes(t@),
    ensures
        r@.map_values(|s: String| s@) == split_tokens_text(t@),
{
    proof {
        lemma_split_tokens_props(t@);
    }
    let pieces = split_tokens_vec(t);
    let n: usize = pieces.len();
    let mut out: Vec<String> = Vec::new();
    let mut i: usize = 0;
    while i < n
        invariant
            i <= n,
            n == pieces@.len(),
            views_of(pieces@) == split_tokens(t@),
            forall|k: int|
                0 <= k < split_tokens(t@).len() ==> is_ascii_bytes(
                    #[trigger] split_tokens(t@)[k],
                ),
            out@.len() == i,
            forall|k: int| 0 <= k < i ==> #[trigger] out@[k]@ == ascii_chars(views_of(pieces@)[k]),
        decreases n - i,
    {
        let piece = copy_piece(&pieces, i);
        proof {
            assert(views_of(pieces@)[i as int] == pieces@[i as int]@);
        }
        let s = ascii_to_string(piece);
        out.push(s);
        i = i + 1;
    }
    proof {
        assert(out@.map_values(|s: String| s@) =~= split_tokens_text(t@));
    }
    out
}

/// Seven-bit, terminator-free text at the character level.
pub open spec fn text_chars(s: Seq<char>) -> bool {
    &&& vstd::utf8::is_ascii_chars(s)
    &&& forall|i: int| 0 <= i < s.len() ==> s[i] != '\0'
}

/// Seven-bit, terminator-free text at the string-slice level.
pub open spec fn str_is_text(s: &str) -> bool {
    &&& s.is_ascii()
    &&& forall|i: int| 0 <= i < s.spec_bytes().len() ==> s.spec_bytes()[i] != 0
}

/// Seven-bit terminator-free characters have a seven-bit terminator-free
/// byte image.
pub proof fn lemma_text_chars_bytes(s: Seq<char>)
    requires
        text_chars(s),
    ensures
        is_text_bytes(bytes_of_text(s)),
{
    vstd::utf8::is_ascii_chars_nat_bound(s);
    assert forall|i: int|
        0 <= i < bytes_of_text(s).len() implies bytes_of_text(s)[i] < 128 && #[trigger]
    bytes_of_text(s)[i] != 0 by {
        assert(bytes_of_text(s)[i] == s[i] as u8);
        assert((s[i] as nat) < 128);
        assert(s[i] != '\0');
    }
}

/// Seven-bit case folding of one byte: upper-case letters gain the case bit,
/// everything else is unchanged.
pub open spec fn lower_byte(b: u8) -> u8 {
    if 65 <= b && b <= 90 {
        (b + 32) as u8
    } else {
        b
    }
}

/// Seven-bit case folding of a buffer.
pub open spec fn lower_bytes(s: Seq<u8>) -> Seq<u8> {
    s.map_values(|b: u8| lower_byte(b))
}

/// Fold a buffer to lower case.
pub fn to_lower(s: &Vec<u8>) -> (r: Vec<u8>)
    ensures
        r@ == lower_bytes(s@),
{
    let n: usize = s.len();
    let mut r: Vec<u8> = Vec::new();
    let mut i: usize = 0;
    while i < n
        invariant
            i <= n,
            n == s@.len(),
            r@ == lower_bytes(s@).take(i as int),
        decreases n - i,
    {
        let b = s[i];
        if 65 <= b && b <= 90 {
            r.push(b + 32);
        } else {
            r.push(b);
        }
        proof {
            assert(lower_bytes(s@).take(i + 1) =~= lower_bytes(s@).take(i as int).push(
                lower_byte(s@[i as int]),
            ));
        }
        i = i + 1;
    }
    proof {
        assert(lower_bytes(s@).take(n as int) =~= lower_bytes(s@));
    }
    r
}

/// `p` occurs in `s` starting at position `i`.
pub open spec fn matches_at(s: Seq<u8>, p: Seq<u8>, i: int) -> bool {
    0 <= i && i + p.len() <= s.len() && s.subrange(i, i + p.len()) == p
}

/// `p` occurs somewhere in `s`.
pub open spec fn contains_bytes(s: Seq<u8>, p: Seq<u8>) -> bool {
    exists|i: int| matches_at(s, p, i)
}

/// Does `p` occur in `s` at exactly position `i`?
fn matches_here(s: &Vec<u8>, p: &Vec<u8>, i: usize) -> (r: bool)
    requires
        i + p@.len() <= s@.len(),
    ensures
        r == matches_at(s@, p@, i as int),
{
    let n: usize = s.len();
    let m: usize = p.len();
    let mut j: usize = 0;
    while j < m
        invariant
            j <= m,
            m == p@.len(),
            n == s@.len(),
            i + m <= s@.len(),
            forall|k: int| 0 <= k < j ==> s@[i + k] == p@[k],
        decreases m - j,
    {
        if s[i + j] != p[j] {
            proof {
                assert(s@.subrange(i as int, i + p@.len())[j as int] != p@[j as int]);
            }
            return false;
        }
        j = j + 1;
    }
    proof {
        assert(s@.subrange(i as int, i + p@.len()) =~= p@);
    }
    true
}

/// Search `s` for an occurrence of `p`.
pub fn find_bytes(s: &Vec<u8>, p: &Vec<u8>) -> (r: bool)
    ensures
        r == contains_bytes(s@, p@),
{
    let n: usize = s.len();
    let m: usize = p.len();
    if m > n {
        proof {
            assert(forall|i: int| !matches_at(s@, p@, i));
        }
        return false;
    }
    if m == 0 {
        proof {
            assert(s@.subrange(0, 0) =~= p@);
            assert(matches_at(s@, p@, 0));
        }
        return true;
    }
    let mut i: usize = 0;
    while i <= n - m
        invariant
            1 <= m <= n,
            n == s@.len(),
            m == p@.len(),
            i <= n - m + 1,
            forall|q: int| 0 <= q < i ==> !matches_at(s@, p@, q),
        decreases n + 1 - i,
    {
        if matches_here(s, p, i) {
            return true;
        }
        i = i + 1;
    }
    proof {
        assert(forall|q: int| matches_at(s@, p@, q) ==> 0 <= q <= n - m);
    }
    false
}

/// Compare two byte buffers for equality.
pub fn bytes_eq(a: &Vec<u8>, b: &Vec<u8>) -> (r: bool)
    ensures
        r == (a@ == b@),
{
    let n: usize = a.len();
    if n != b.len() {
        proof {
            assert(a@.len() != b@.len());
        }
        return false;
    }
    let mut i: usize = 0;
    while i < n
        invariant
            i <= n,
            n == a@.len(),
            n == b@.len(),
            forall|j: int| 0 <= j < i ==> a@[j] == b@[j],
        decreases n - i,
    {
        if a[i] != b[i] {
            return false;
        }
        i = i + 1;
    }
    proof {
        assert(a@ =~= b@);
    }
    true
}

/// Convert checked seven-bit bytes into an owned string.
///
/// Relies on `String::from_utf8`: seven-bit bytes are valid text and decode
/// to exactly the characters with the same code points.
#[verifier::external_body]
pub fn ascii_to_string(b: Vec<u8>) -> (r: String)
    requires
        is_ascii_bytes(b@),
    ensures
        r@ == ascii_chars(b@),
{
    String::from_utf8(b).unwrap_or_default()
}

} // verus!
