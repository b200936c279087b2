//! Splitting a long reply into pieces that each fit in one outgoing message.
//!
//! Lengths and cut positions are counted in UTF-8 bytes. A piece that must be
//! cut is cut, by preference, just after the last blank line, else just after
//! the last line break, else just after the last space of its window, as long
//! as that point lies beyond three tenths of the window; otherwise the window
//! is cut at its full length.

use vstd::prelude::*;
use vstd::string::StringSliceAdditionalSpecFns;
use vstd::utf8::*;

verus! {

broadcast use {vstd::string::to_string_from_display_ensures_for_str, vstd::utf8::encode_utf8_valid_utf8};

/// The most bytes of text that one outgoing message carries.
pub const TEXT_CHUNK_LIMIT: usize = 2000usize;

/// The byte of a line break.
pub const NEWLINE: u8 = 10u8;

/// The byte of a space.
pub const SPACE: u8 = 32u8;

/// Index of the last occurrence of byte `c` in `w`.
pub open spec fn rfind_byte(w: Seq<u8>, c: u8) -> Option<int>
    decreases w.len(),
{
    if w.len() == 0 {
        None
    } else if w.last() == c {
        Some(w.len() - 1)
    } else {
        rfind_byte(w.drop_last(), c)
    }
}

/// Index of the start of the last occurrence of the two bytes `c c` in `w`.
pub open spec fn rfind_pair(w: Seq<u8>, c: u8) -> Option<int>
    decreases w.len(),
{
    if w.len() < 2 {
        None
    } else if w[w.len() - 2] == c && w.last() == c {
        Some(w.len() - 2)
    } else {
        rfind_pair(w.drop_last(), c)
    }
}

/// Three tenths of `limit`: a blank line, line break or space in a window of
/// `limit` bytes is cut at only when it starts past this index.
pub open spec fn cut_floor(limit: nat) -> int {
    ((limit * 3) / 10) as int
}

/// Where a window `w` of `limit` bytes is cut.
pub open spec fn cut_point(w: Seq<u8>, limit: nat) -> int {
    let t = cut_floor(limit);
    let pair = rfind_pair(w, NEWLINE);
    let line = rfind_byte(w, NEWLINE);
    let space = rfind_byte(w, SPACE);
    if pair is Some && pair->0 > t {
        pair->0 + 2
    } else if line is Some && line->0 > t {
        line->0 + 1
    } else if space is Some && space->0 > t {
        space->0 + 1
    } else {
        limit as int
    }
}

/// The pieces that `rem` is cut into, each cut made in the first `limit` bytes
/// of what is left.
pub open spec fn chunk_pieces(rem: Seq<u8>, limit: nat) -> Seq<Seq<u8>>
    decreases rem.len(),
{
    if rem.len() <= limit {
        if rem.len() == 0 {
            seq![]
        } else {
            seq![rem]
        }
    } else if limit == 0 {
        seq![]
    } else {
        let c = cut_point(rem.take(limit as int), limit);
        proof {
            lemma_cut_point_bounds(rem.take(limit as int), limit);
        }
        seq![rem.take(c)] + chunk_pieces(rem.skip(c), limit)
    }
}

/// Each window end that the splitting visits lies on a character boundary.
pub open spec fn cuts_on_char_boundaries(rem: Seq<u8>, limit: nat) -> bool
    decreases rem.len(),
{
    if rem.len() <= limit || limit == 0 {
        true
    } else {
        let c = cut_point(rem.take(limit as int), limit);
        proof {
            lemma_cut_point_bounds(rem.take(limit as int), limit);
        }
        is_char_boundary(rem, limit as int) && cuts_on_char_boundaries(rem.skip(c), limit)
    }
}

/// The text of `bytes` can be split with pieces of `limit` bytes: the splitting
/// ends, and every window it takes ends on a character boundary.
pub open spec fn chunkable(bytes: Seq<u8>, limit: nat) -> bool {
    bytes.len() <= limit || (limit > 0 && cuts_on_char_boundaries(bytes, limit))
}

/// The pieces, as UTF-8 bytes, that a text whose UTF-8 bytes are `bytes` is split into.
pub open spec fn chunk_spec(bytes: Seq<u8>, limit: nat) -> Seq<Seq<u8>> {
    if bytes.len() <= limit {
        seq![bytes]
    } else {
        chunk_pieces(bytes, limit)
    }
}

/// `rfind_byte` finds the last occurrence of the byte, and finds none only where there is none.
pub proof fn lemma_rfind_byte(w: Seq<u8>, c: u8)
    ensures
        rfind_byte(w, c) matches Some(i) ==> 0 <= i < w.len() && w[i] == c,
        rfind_byte(w, c) matches Some(i) ==> forall|j: int| i < j < w.len() ==> w[j] != c,
        rfind_byte(w, c) is None ==> forall|j: int| 0 <= j < w.len() ==> w[j] != c,
    decreases w.len(),
{
    if w.len() > 0 && w.last() != c {
        lemma_rfind_byte(w.drop_last(), c);
        assert forall|j: int| 0 <= j < w.len() - 1 implies w[j] == w.drop_last()[j] by {}
    }
}

/// Two bytes `c c` start at index `j` of `w`.
pub open spec fn pair_at(w: Seq<u8>, c: u8, j: int) -> bool {
    0 <= j && j + 1 < w.len() && w[j] == c && w[j + 1] == c
}

/// `rfind_pair` finds the last occurrence of the pair, and finds none only where there is none.
pub proof fn lemma_rfind_pair(w: Seq<u8>, c: u8)
    ensures
        rfind_pair(w, c) matches Some(i) ==> 0 <= i && i + 1 < w.len() && w[i] == c && w[i + 1]
            == c,
        rfind_pair(w, c) matches Some(i) ==> forall|j: int| i < j ==> !#[trigger] pair_at(w, c, j),
        rfind_pair(w, c) is None ==> forall|j: int| !#[trigger] pair_at(w, c, j),
    decreases w.len(),
{
    if w.len() >= 2 && !(w[w.len() - 2] == c && w.last() == c) {
        let v = w.drop_last();
        lemma_rfind_pair(v, c);
        assert forall|j: int| pair_at(w, c, j) && j + 2 < w.len() implies pair_at(v, c, j) by {}
    }
}

/// A window of `limit > 0` bytes is cut after at least one byte, past three
/// tenths of the window, and after at most `limit` bytes.
pub proof fn lemma_cut_point_bounds(w: Seq<u8>, limit: nat)
    requires
        w.len() == limit,
        limit > 0,
    ensures
        0 < cut_point(w, limit) <= limit,
        cut_floor(limit) < cut_point(w, limit),
{
    lemma_rfind_pair(w, NEWLINE);
    lemma_rfind_byte(w, NEWLINE);
    lemma_rfind_byte(w, SPACE);
}

/// How a window `w` of `limit > 0` bytes is cut, with `t` three tenths of
/// `limit`: just after the last blank line that starts past `t`, if there is
/// one; else just after the last line break, if it lies past `t`; else just
/// after the last space, if it lies past `t`; else after all `limit` bytes.
/// Each kind of separator is looked for whether or not an earlier-preferred
/// kind occurs too early in the window.
pub proof fn lemma_cut_point_rule(w: Seq<u8>, limit: nat)
    requires
        w.len() == limit,
        limit > 0,
    ensures
        ({
            let t = (limit * 3) / 10;
            let c = cut_point(w, limit);
            let blank = exists|j: int| j > t && #[trigger] pair_at(w, NEWLINE, j);
            let line = exists|j: int| t < j < w.len() && #[trigger] w[j] == NEWLINE;
            let space = exists|j: int| t < j < w.len() && #[trigger] w[j] == SPACE;
            &&& blank ==> c - 2 > t && pair_at(w, NEWLINE, c - 2) && forall|j: int|
                j > c - 2 ==> !#[trigger] pair_at(w, NEWLINE, j)
            &&& !blank && line ==> c - 1 > t && w[c - 1] == NEWLINE && forall|j: int|
                c - 1 < j < w.len() ==> #[trigger] w[j] != NEWLINE
            &&& !blank && !line && space ==> c - 1 > t && w[c - 1] == SPACE && forall|j: int|
                c - 1 < j < w.len() ==> #[trigger] w[j] != SPACE
            &&& !blank && !line && !space ==> c == limit
        }),
{
    lemma_rfind_pair(w, NEWLINE);
    lemma_rfind_byte(w, NEWLINE);
    lemma_rfind_byte(w, SPACE);
    let t = (limit * 3) / 10;
    assert(cut_floor(limit) == t);
    let c = cut_point(w, limit);
    let pair = rfind_pair(w, NEWLINE);
    let nl = rfind_byte(w, NEWLINE);
    let sp = rfind_byte(w, SPACE);
    let blank = exists|j: int| j > t && #[trigger] pair_at(w, NEWLINE, j);
    let line = exists|j: int| t < j < w.len() && #[trigger] w[j] == NEWLINE;
    let space = exists|j: int| t < j < w.len() && #[trigger] w[j] == SPACE;
    if blank {
        let j = choose|j: int| j > t && #[trigger] pair_at(w, NEWLINE, j);
        assert(pair is Some);
        assert(pair->0 >= j);
        assert(c == pair->0 + 2);
    } else {
        if pair is Some {
            assert(!(pair->0 > t)) by {
                if pair->0 > t {
                    assert(pair_at(w, NEWLINE, pair->0));
                }
            }
        }
        if line {
            let j = choose|j: int| t < j < w.len() && #[trigger] w[j] == NEWLINE;
            assert(nl is Some);
            assert(nl->0 >= j);
            assert(c == nl->0 + 1);
        } else {
            if nl is Some {
                assert(!(nl->0 > t)) by {
                    if nl->0 > t {
                        assert(w[nl->0] == NEWLINE);
                    }
                }
            }
            if space {
                let j = choose|j: int| t < j < w.len() && #[trigger] w[j] == SPACE;
                assert(sp is Some);
                assert(sp->0 >= j);
                assert(c == sp->0 + 1);
            } else {
                if sp is Some {
                    assert(!(sp->0 > t)) by {
                        if sp->0 > t {
                            assert(w[sp->0] == SPACE);
                        }
                    }
                }
            }
        }
    }
}

/// The first piece of a text longer than `limit > 0` bytes is the text's
/// first bytes up to where its window of `limit` bytes is cut.
pub proof fn lemma_first_piece(bytes: Seq<u8>, limit: nat)
    requires
        bytes.len() > limit > 0,
    ensures
        chunk_spec(bytes, limit)[0] == bytes.take(cut_point(bytes.take(limit as int), limit)),
{
    lemma_cut_point_bounds(bytes.take(limit as int), limit);
}

/// In valid UTF-8, the byte after an ASCII byte starts a new character.
pub proof fn lemma_boundary_after_ascii(bytes: Seq<u8>, i: int)
    requires
        valid_utf8(bytes),
        0 <= i < bytes.len(),
        bytes[i] < 0x80,
    ensures
        is_char_boundary(bytes, i + 1),
    decreases bytes.len(),
{
    let n = length_of_first_scalar(bytes);
    let tail = pop_first_scalar(bytes);
    assert(valid_first_scalar(bytes) && valid_utf8(tail));
    assert(tail.len() == bytes.len() - n);
    if i + 1 < n {
        assert(false);
    } else if i + 1 > n {
        assert(tail[i - n] == bytes[i]);
        lemma_boundary_after_ascii(tail, i - n);
    } else {
        assert(is_char_boundary(tail, 0));
    }
}

/// The cut of a window that ends on a character boundary is itself a character boundary.
pub proof fn lemma_cut_point_boundary(rem: Seq<u8>, limit: nat)
    requires
        valid_utf8(rem),
        0 < limit < rem.len(),
        is_char_boundary(rem, limit as int),
    ensures
        is_char_boundary(rem, cut_point(rem.take(limit as int), limit)),
{
    let w = rem.take(limit as int);
    lemma_rfind_pair(w, NEWLINE);
    lemma_rfind_byte(w, NEWLINE);
    lemma_rfind_byte(w, SPACE);
    let t = cut_floor(limit);
    let pair = rfind_pair(w, NEWLINE);
    let line = rfind_byte(w, NEWLINE);
    let space = rfind_byte(w, SPACE);
    if pair is Some && pair->0 > t {
        lemma_boundary_after_ascii(rem, pair->0 + 1);
    } else if line is Some && line->0 > t {
        lemma_boundary_after_ascii(rem, line->0);
    } else if space is Some && space->0 > t {
        lemma_boundary_after_ascii(rem, space->0);
    }
}

/// Index of the last byte `c` among the first `end` bytes of `bytes`.
fn rfind_byte_in(bytes: &[u8], end: usize, c: u8) -> (r: Option<usize>)
    requires
        end <= bytes@.len(),
    ensures
        match r {
            Some(i) => rfind_byte(bytes@.take(end as int), c) == Some(i as int),
            None => rfind_byte(bytes@.take(end as int), c) is None,
        },
{
    let mut j = end;
    while j > 0
        invariant
            j <= end <= bytes@.len(),
            rfind_byte(bytes@.take(end as int), c) == rfind_byte(bytes@.take(j as int), c),
        decreases j,
    {
        if bytes[j - 1] == c {
            return Some(j - 1);
        }
        assert(bytes@.take(j as int).drop_last() =~= bytes@.take(j - 1));
        j = j - 1;
    }
    None
}

/// Index of the start of the last pair `c c` among the first `end` bytes of `bytes`.
fn rfind_pair_in(bytes: &[u8], end: usize, c: u8) -> (r: Option<usize>)
    requires
        end <= bytes@.len(),
    ensures
        match r {
            Some(i) => rfind_pair(bytes@.take(end as int), c) == Some(i as int),
            None => rfind_pair(bytes@.take(end as int), c) is None,
        },
{
    let mut j = end;
    while j >= 2
        invariant
            j <= end <= bytes@.len(),
            rfind_pair(bytes@.take(end as int), c) == rfind_pair(bytes@.take(j as int), c),
        decreases j,
    {
        if bytes[j - 2] == c && bytes[j - 1] == c {
            return Some(j - 2);
        }
        assert(bytes@.take(j as int).drop_last() =~= bytes@.take(j - 1));
        j = j - 1;
    }
    None
}

/// Three tenths of `limit`, rounded down, computed without overflow.
fn cut_floor_of(limit: usize) -> (t: usize)
    ensures
        t == cut_floor(limit as nat),
{
    let t = limit / 10 * 3 + limit % 10 * 3 / 10;
    assert(t == (limit * 3) / 10) by (nonlinear_arith)
        requires
            t == limit / 10 * 3 + limit % 10 * 3 / 10,
    ;
    t
}

/// Where the window of the first `limit` bytes of `bytes` is cut.
fn cut_point_in(bytes: &[u8], limit: usize) -> (cut: usize)
    requires
        limit <= bytes@.len(),
    ensures
        cut == cut_point(bytes@.take(limit as int), limit as nat),
{
    let t = cut_floor_of(limit);
    proof {
        let w = bytes@.take(limit as int);
        lemma_rfind_pair(w, NEWLINE);
        lemma_rfind_byte(w, NEWLINE);
        lemma_rfind_byte(w, SPACE);
    }
    match rfind_pair_in(bytes, limit, NEWLINE) {
        Some(i) if i > t => i + 2,
        _ => match rfind_byte_in(bytes, limit, NEWLINE) {
            Some(i) if i > t => i + 1,
            _ => match rfind_byte_in(bytes, limit, SPACE) {
                Some(i) if i > t => i + 1,
                _ => limit,
            },
        },
    }
}

/// Splits `text` into pieces of at most `limit` bytes each (see the module's
/// doc for where a piece is cut). A text that fits is handed back whole.
pub fn chunk_text(text: &str, limit: usize) -> (chunks: Vec<String>)
    requires
        chunkable(text.spec_bytes(), limit as nat),
    ensures
        chunks@.len() == chunk_spec(text.spec_bytes(), limit as nat).len(),
        forall|i: int|
            0 <= i < chunks@.len() ==> encode_utf8(#[trigger] chunks@[i]@) == chunk_spec(
                text.spec_bytes(),
                limit as nat,
            )[i],
        chunks@.map_values(|c: String| c@).flatten() == text@,
{
    if text.as_bytes().len() <= limit {
        let mut whole: Vec<String> = Vec::new();
        whole.push(text.to_string());
        proof {
            lemma_rejoin_strings(text, whole@, limit as nat);
        }
        return whole;
    }
    let ghost total = text.spec_bytes();
    let mut chunks: Vec<String> = Vec::new();
    let ghost mut done: Seq<Seq<u8>> = seq![];
    let mut remaining: &str = text;
    while remaining.as_bytes().len() > limit
        invariant
            limit > 0,
            total == text.spec_bytes(),
            total.len() > limit,
            cuts_on_char_boundaries(remaining.spec_bytes(), limit as nat),
            chunk_pieces(total, limit as nat) == done + chunk_pieces(
                remaining.spec_bytes(),
                limit as nat,
            ),
            done.len() == chunks@.len(),
            forall|i: int| 0 <= i < chunks@.len() ==> encode_utf8(#[trigger] chunks@[i]@) == done[i],
        decreases remaining.spec_bytes().len(),
    {
        let ghost rem = remaining.spec_bytes();
        let cut = cut_point_in(remaining.as_bytes(), limit);
        proof {
            lemma_cut_point_bounds(rem.take(limit as int), limit as nat);
            lemma_cut_point_boundary(rem, limit as nat);
        }
        let (head, tail) = remaining.split_at(cut);
        assert(head.spec_bytes() =~= rem.take(cut as int));
        assert(tail.spec_bytes() =~= rem.skip(cut as int));
        chunks.push(head.to_string());
        proof {
            done = done.push(rem.take(cut as int));
            assert(seq![rem.take(cut as int)] + chunk_pieces(rem.skip(cut as int), limit as nat)
                =~= chunk_pieces(rem, limit as nat));
            assert(done + chunk_pieces(tail.spec_bytes(), limit as nat) =~= (done.drop_last()
                + seq![rem.take(cut as int)]) + chunk_pieces(rem.skip(cut as int), limit as nat));
        }
        remaining = tail;
    }
    if remaining.as_bytes().len() > 0 {
        chunks.push(remaining.to_string());
        proof {
            done = done.push(remaining.spec_bytes());
        }
    }
    assert(done =~= chunk_pieces(total, limit as nat));
    proof {
        lemma_rejoin_strings(text, chunks@, limit as nat);
    }
    chunks
}

proof fn lemma_rejoin_strings(text: &str, chunks: Seq<String>, limit: nat)
    requires
        limit > 0 || text.spec_bytes().len() <= limit,
        chunks.len() == chunk_spec(text.spec_bytes(), limit).len(),
        forall|i: int|
            0 <= i < chunks.len() ==> encode_utf8(#[trigger] chunks[i]@) == chunk_spec(
                text.spec_bytes(),
                limit,
            )[i],
    ensures
        chunks.map_values(|c: String| c@).flatten() == text@,
{
    let pieces = chunks.map_values(|c: String| c@);
    assert forall|i: int| 0 <= i < pieces.len() implies encode_utf8(#[trigger] pieces[i])
        == chunk_spec(encode_utf8(text@), limit)[i] by {
        assert(pieces[i] == chunks[i]@);
    }
    lemma_texts_rejoin(text@, pieces, limit);
}

/// Whether `chunk_text(text, limit)` can split `text`: the splitting ends, and
/// every window it takes ends on a character boundary.
pub fn can_chunk(text: &str, limit: usize) -> (ok: bool)
    ensures
        ok == chunkable(text.spec_bytes(), limit as nat),
{
    if text.as_bytes().len() <= limit {
        return true;
    }
    if limit == 0 {
        return false;
    }
    let mut remaining: &str = text;
    while remaining.as_bytes().len() > limit
        invariant
            limit > 0,
            text.spec_bytes().len() > limit,
            cuts_on_char_boundaries(text.spec_bytes(), limit as nat) == cuts_on_char_boundaries(
                remaining.spec_bytes(),
                limit as nat,
            ),
        decreases remaining.spec_bytes().len(),
    {
        let ghost rem = remaining.spec_bytes();
        if !remaining.is_char_boundary(limit) {
            return false;
        }
        let cut = cut_point_in(remaining.as_bytes(), limit);
        proof {
            lemma_cut_point_bounds(rem.take(limit as int), limit as nat);
            lemma_cut_point_boundary(rem, limit as nat);
        }
        let (_head, tail) = remaining.split_at(cut);
        assert(tail.spec_bytes() =~= rem.skip(cut as int));
        remaining = tail;
    }
    true
}

/// Putting the pieces back together, in order, gives the bytes that were split.
pub proof fn lemma_pieces_rejoin(bytes: Seq<u8>, limit: nat)
    requires
        limit > 0 || bytes.len() <= limit,
    ensures
        chunk_spec(bytes, limit).flatten() == bytes,
{
    if bytes.len() <= limit {
        seq![bytes].lemma_flatten_one_element();
    } else {
        lemma_chunk_pieces_rejoin(bytes, limit);
    }
}

proof fn lemma_chunk_pieces_rejoin(rem: Seq<u8>, limit: nat)
    requires
        limit > 0,
    ensures
        chunk_pieces(rem, limit).flatten() == rem,
    decreases rem.len(),
{
    if rem.len() <= limit {
        if rem.len() == 0 {
            assert(chunk_pieces(rem, limit).flatten() =~= rem);
        } else {
            seq![rem].lemma_flatten_one_element();
        }
    } else {
        let c = cut_point(rem.take(limit as int), limit);
        lemma_cut_point_bounds(rem.take(limit as int), limit);
        lemma_chunk_pieces_rejoin(rem.skip(c), limit);
        let p = chunk_pieces(rem, limit);
        assert(p.drop_first() =~= chunk_pieces(rem.skip(c), limit));
        assert(p.flatten() =~= rem.take(c) + rem.skip(c));
        assert(rem.take(c) + rem.skip(c) =~= rem);
    }
}

/// A text longer than the limit is cut into pieces of one to `limit` bytes,
/// each but the last longer than three tenths of the limit; a text that fits
/// stays one piece.
pub proof fn lemma_piece_sizes(bytes: Seq<u8>, limit: nat)
    requires
        limit > 0 || bytes.len() <= limit,
    ensures
        bytes.len() <= limit ==> chunk_spec(bytes, limit) == seq![bytes],
        bytes.len() > limit ==> chunk_spec(bytes, limit).len() >= 2,
        bytes.len() > limit ==> forall|i: int|
            0 <= i < chunk_spec(bytes, limit).len() ==> 0 < (#[trigger] chunk_spec(
                bytes,
                limit,
            )[i]).len() <= limit,
        bytes.len() > limit ==> forall|i: int|
            0 <= i < chunk_spec(bytes, limit).len() - 1 ==> cut_floor(limit) < (#[trigger] chunk_spec(
                bytes,
                limit,
            )[i]).len(),
{
    if bytes.len() > limit {
        lemma_chunk_pieces_sizes(bytes, limit);
        let c = cut_point(bytes.take(limit as int), limit);
        lemma_cut_point_bounds(bytes.take(limit as int), limit);
        assert(bytes.skip(c).len() > 0);
        lemma_chunk_pieces_nonempty(bytes.skip(c), limit);
    }
}

proof fn lemma_chunk_pieces_nonempty(rem: Seq<u8>, limit: nat)
    requires
        limit > 0,
        rem.len() > 0,
    ensures
        chunk_pieces(rem, limit).len() >= 1,
{
    if rem.len() > limit {
        lemma_cut_point_bounds(rem.take(limit as int), limit);
    }
}

proof fn lemma_chunk_pieces_sizes(rem: Seq<u8>, limit: nat)
    requires
        limit > 0,
    ensures
        forall|i: int|
            0 <= i < chunk_pieces(rem, limit).len() ==> 0 < (#[trigger] chunk_pieces(
                rem,
                limit,
            )[i]).len() <= limit,
        forall|i: int|
            0 <= i < chunk_pieces(rem, limit).len() - 1 ==> cut_floor(limit) < (
            #[trigger] chunk_pieces(rem, limit)[i]).len(),
    decreases rem.len(),
{
    if rem.len() > limit {
        let c = cut_point(rem.take(limit as int), limit);
        lemma_cut_point_bounds(rem.take(limit as int), limit);
        lemma_chunk_pieces_sizes(rem.skip(c), limit);
        let p = chunk_pieces(rem, limit);
        assert forall|i: int| 0 <= i < p.len() implies 0 < (#[trigger] p[i]).len() <= limit by {
            if i > 0 {
                assert(p[i] == chunk_pieces(rem.skip(c), limit)[i - 1]);
            }
        }
        assert forall|i: int| 0 <= i < p.len() - 1 implies cut_floor(limit) < (
        #[trigger] p[i]).len() by {
            if i > 0 {
                assert(p[i] == chunk_pieces(rem.skip(c), limit)[i - 1]);
            }
        }
    }
}

/// The UTF-8 encoding of two texts one after the other is the encoding of the
/// first followed by that of the second.
pub proof fn lemma_encode_utf8_concat(a: Seq<char>, b: Seq<char>)
    ensures
        encode_utf8(a + b) == encode_utf8(a) + encode_utf8(b),
    decreases a.len(),
{
    if a.len() == 0 {
        assert(a + b =~= b);
    } else {
        lemma_encode_utf8_concat(a.drop_first(), b);
        assert((a + b).drop_first() =~= a.drop_first() + b);
        assert((a + b)[0] == a[0]);
    }
}

proof fn lemma_encode_utf8_flatten(texts: Seq<Seq<char>>)
    ensures
        encode_utf8(texts.flatten()) == texts.map_values(|t: Seq<char>| encode_utf8(t)).flatten(),
    decreases texts.len(),
{
    let enc = texts.map_values(|t: Seq<char>| encode_utf8(t));
    if texts.len() == 0 {
        assert(enc.flatten() =~= Seq::<u8>::empty());
    } else {
        lemma_encode_utf8_flatten(texts.drop_first());
        lemma_encode_utf8_concat(texts.first(), texts.drop_first().flatten());
        assert(enc.drop_first() =~= texts.drop_first().map_values(|t: Seq<char>| encode_utf8(t)));
    }
}

/// Texts whose UTF-8 encodings are the pieces of `text`, put back together in
/// order, are `text`.
pub proof fn lemma_texts_rejoin(text: Seq<char>, pieces: Seq<Seq<char>>, limit: nat)
    requires
        limit > 0 || encode_utf8(text).len() <= limit,
        pieces.len() == chunk_spec(encode_utf8(text), limit).len(),
        forall|i: int|
            0 <= i < pieces.len() ==> encode_utf8(#[trigger] pieces[i]) == chunk_spec(
                encode_utf8(text),
                limit,
            )[i],
    ensures
        pieces.flatten() == text,
{
    let spec = chunk_spec(encode_utf8(text), limit);
    lemma_pieces_rejoin(encode_utf8(text), limit);
    lemma_encode_utf8_flatten(pieces);
    assert(pieces.map_values(|t: Seq<char>| encode_utf8(t)) =~= spec);
    encode_utf8_decode_utf8(pieces.flatten());
    encode_utf8_decode_utf8(text);
}

/// Every byte of `bytes` is an ASCII byte.
pub open spec fn all_ascii_bytes(bytes: Seq<u8>) -> bool {
    forall|i: int| 0 <= i < bytes.len() ==> #[trigger] bytes[i] < 0x80
}

proof fn lemma_ascii_cuts_on_char_boundaries(rem: Seq<u8>, limit: nat)
    requires
        valid_utf8(rem),
        all_ascii_bytes(rem),
    ensures
        cuts_on_char_boundaries(rem, limit),
    decreases rem.len(),
{
    if rem.len() > limit && limit > 0 {
        let c = cut_point(rem.take(limit as int), limit);
        lemma_cut_point_bounds(rem.take(limit as int), limit);
        lemma_boundary_after_ascii(rem, limit - 1);
        lemma_cut_point_boundary(rem, limit);
        valid_utf8_split(rem, c);
        assert(rem.subrange(c, rem.len() as int) =~= rem.skip(c));
        assert forall|i: int| 0 <= i < rem.skip(c).len() implies #[trigger] rem.skip(c)[i] < 0x80 by {
            assert(rem.skip(c)[i] == rem[c + i]);
        }
        lemma_ascii_cuts_on_char_boundaries(rem.skip(c), limit);
    }
}

/// An ASCII text can always be split with a positive limit.
pub proof fn lemma_ascii_text_is_chunkable(text: Seq<char>, limit: nat)
    requires
        is_ascii_chars(text),
        limit > 0,
    ensures
        chunkable(encode_utf8(text), limit),
{
    let b = encode_utf8(text);
    is_ascii_chars_encode_utf8(text);
    assert forall|i: int| 0 <= i < b.len() implies #[trigger] b[i] < 0x80 by {
        let c = text[i];
        assert(c as u8 == b[i]);
        assert('\0' <= c <= '\u{7f}');
        let u = c as u32;
        assert(u <= 0x7f);
        assert((u as u8) < 0x80) by (bit_vector)
            requires
                u <= 0x7f,
        ;
        assert(c as u8 == u as u8);
    }
    lemma_ascii_cuts_on_char_boundaries(b, limit);
}

} // verus!
