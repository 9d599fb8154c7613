//! Splitting plain text into chunks of at most 512 bytes, word by word.
use vstd::prelude::*;
use vstd::utf8::*;
use crate::error::FinanalizeError;
use crate::text::{join, push_char, split_whitespace, views, words};
use super::{Content, ContentExtract, FileType, invalid_input, invalid_input_message, is_parse_error, texts_are};

verus! {

/// The size, in bytes, that a chunk reaches before it is closed.
pub const CHUNK_LIMIT: usize = 512;

/// The length of `s` in UTF-8 bytes (what `str::len` counts).
pub open spec fn byte_len(s: Seq<char>) -> nat {
    encode_utf8(s).len()
}

/// One step of chunking: the chunks so far and the open chunk, after `w`.
/// The open chunk is closed first when it and `w` together reach the limit;
/// then `w` is added to it, after a space unless it is empty.
pub open spec fn chunk_step(state: (Seq<Seq<char>>, Seq<char>), w: Seq<char>) -> (
    Seq<Seq<char>>,
    Seq<char>,
) {
    let (chunks, cur) = state;
    let (chunks2, cur2) = if byte_len(cur) + byte_len(w) >= CHUNK_LIMIT {
        (chunks.push(cur), Seq::<char>::empty())
    } else {
        (chunks, cur)
    };
    if cur2.len() != 0 {
        (chunks2, cur2.push(' ') + w)
    } else {
        (chunks2, cur2 + w)
    }
}

/// The state after chunking the words `ws` in order.
pub open spec fn chunk_fold(ws: Seq<Seq<char>>) -> (Seq<Seq<char>>, Seq<char>)
    decreases ws.len(),
{
    if ws.len() == 0 {
        (seq![], seq![])
    } else {
        chunk_step(chunk_fold(ws.drop_last()), ws.last())
    }
}

/// The chunks of `s`: its words, packed in order into chunks, each closed
/// before the word that would bring it to 512 bytes, and the last one kept if
/// it is not empty.
pub open spec fn chunks_of(s: Seq<char>) -> Seq<Seq<char>> {
    let (chunks, cur) = chunk_fold(words(s));
    if cur.len() != 0 {
        chunks.push(cur)
    } else {
        chunks
    }
}

/// The length of `s` in UTF-8 bytes.
pub fn str_byte_len(s: &str) -> (n: usize)
    ensures
        n == byte_len(s@),
{
    broadcast use vstd::slice::group_slice_axioms;
    s.as_bytes().len()
}

/// Text is empty exactly when it has no bytes.
pub proof fn lemma_byte_len_zero(s: Seq<char>)
    ensures
        (byte_len(s) == 0) == (s.len() == 0),
{
    if s.len() > 0 {
        assert(encode_scalar(s[0] as u32).len() >= 1);
        assert(encode_utf8(s) == encode_scalar(s[0] as u32) + encode_utf8(s.drop_first()));
    }
}

/// Splits `input` into chunks as `chunks_of` describes.
pub fn chunk_text(input: &str) -> (r: Vec<String>)
    ensures
        views(r@) == chunks_of(input@),
{
    let ws = split_whitespace(input);
    let ghost wv = views(ws@);
    let mut chunks: Vec<String> = Vec::new();
    let mut current_chunk = String::new();
    let mut i: usize = 0;
    while i < ws.len()
        invariant
            i <= ws.len(),
            wv == views(ws@),
            wv == words(input@),
            (views(chunks@), current_chunk@) == chunk_fold(wv.take(i as int)),
        decreases ws.len() - i,
    {
        let word = ws[i].as_str();
        assert(wv.take(i + 1).drop_last() == wv.take(i as int));
        assert(wv.take(i + 1).last() == word@);
        let ghost before = chunks@;
        let ghost old_cur = current_chunk@;
        let ghost state = chunk_fold(wv.take(i as int));
        assert(state.0 == views(before));
        assert(state.1 == old_cur);
        let closing = str_byte_len(current_chunk.as_str()).saturating_add(str_byte_len(word)) >= CHUNK_LIMIT;
        assert(closing == (byte_len(old_cur) + byte_len(word@) >= CHUNK_LIMIT));
        if closing {
            chunks.push(current_chunk.clone());
            assert(views(chunks@) == views(before).push(old_cur));
            current_chunk = String::new();
        }
        let ghost mid_chunks = views(chunks@);
        let ghost mid_cur = current_chunk@;
        assert(mid_chunks == (if closing { views(before).push(old_cur) } else { views(before) }));
        assert(mid_cur == (if closing { Seq::<char>::empty() } else { old_cur }));
        proof {
            lemma_byte_len_zero(current_chunk@);
        }
        if str_byte_len(current_chunk.as_str()) != 0 {
            push_char(&mut current_chunk, ' ');
        }
        current_chunk.append(word);
        assert(current_chunk@ == (if mid_cur.len() != 0 { mid_cur.push(' ') + word@ } else { mid_cur + word@ }));
        assert((views(chunks@), current_chunk@) == chunk_step(state, word@));
        i = i + 1;
    }
    assert(wv.take(ws.len() as int) == wv);
    proof {
        lemma_byte_len_zero(current_chunk@);
    }
    if str_byte_len(current_chunk.as_str()) != 0 {
        let ghost before = chunks@;
        chunks.push(current_chunk);
        assert(views(chunks@) == views(before).push(chunks@.last()@));
    }
    chunks
}

/// Adding a space and a word to a chunk adds their bytes to its length.
proof fn lemma_byte_len_join(cur: Seq<char>, w: Seq<char>)
    ensures
        byte_len(cur.push(' ') + w) == byte_len(cur) + 1 + byte_len(w),
        byte_len(cur + w) == byte_len(cur) + byte_len(w),
{
    let sp = seq![' '];
    assert(cur.push(' ') == cur + sp);
    crate::text::lemma_encode_utf8_concat(cur, sp);
    crate::text::lemma_encode_utf8_concat(cur + sp, w);
    crate::text::lemma_encode_utf8_concat(cur, w);
    assert(sp.drop_first() == Seq::<char>::empty());
    assert(' ' as u32 == 0x20u32);
    assert(encode_scalar(0x20u32).len() == 1);
    assert(encode_utf8(sp) == encode_scalar(sp[0] as u32) + encode_utf8(sp.drop_first()));
}

/// While every word has at most 512 bytes, so does every chunk closed so far
/// and the chunk that is still open.
proof fn lemma_fold_within_limit(ws: Seq<Seq<char>>)
    requires
        forall|i: int| 0 <= i < ws.len() ==> byte_len(#[trigger] ws[i]) <= CHUNK_LIMIT,
    ensures
        forall|i: int|
            0 <= i < chunk_fold(ws).0.len() ==> byte_len(#[trigger] chunk_fold(ws).0[i])
                <= CHUNK_LIMIT,
        byte_len(chunk_fold(ws).1) <= CHUNK_LIMIT,
    decreases ws.len(),
{
    if ws.len() > 0 {
        let prev = ws.drop_last();
        assert forall|i: int| 0 <= i < prev.len() implies byte_len(#[trigger] prev[i])
            <= CHUNK_LIMIT by {
            assert(prev[i] == ws[i]);
        }
        lemma_fold_within_limit(prev);
        let (chunks, cur) = chunk_fold(prev);
        let w = ws.last();
        assert(byte_len(w) <= CHUNK_LIMIT) by {
            assert(w == ws[ws.len() - 1]);
        }
        lemma_byte_len_join(cur, w);
        lemma_byte_len_join(Seq::<char>::empty(), w);
        assert(Seq::<char>::empty() + w == w);
        lemma_byte_len_zero(Seq::<char>::empty());
    }
}

/// When no word of `s` is longer than 512 bytes, no chunk of `s` is either.
pub proof fn lemma_chunks_within_limit(s: Seq<char>)
    requires
        forall|i: int| 0 <= i < words(s).len() ==> byte_len(#[trigger] words(s)[i]) <= CHUNK_LIMIT,
    ensures
        forall|i: int|
            0 <= i < chunks_of(s).len() ==> byte_len(#[trigger] chunks_of(s)[i]) <= CHUNK_LIMIT,
{
    lemma_fold_within_limit(words(s));
}

/// Every word of a text has at least one character.
pub proof fn lemma_words_not_empty(s: Seq<char>)
    ensures
        forall|i: int| 0 <= i < words(s).len() ==> #[trigger] words(s)[i].len() > 0,
    decreases s.len(),
{
    if s.len() > 0 {
        lemma_words_not_empty(s.drop_last());
        crate::text::lemma_words_nonempty_when_joined(s);
    }
}

/// Appending a part to a joined text adds the separator and the part.
proof fn lemma_join_push(parts: Seq<Seq<char>>, x: Seq<char>, sep: Seq<char>)
    ensures
        parts.len() == 0 ==> join(parts.push(x), sep) == x,
        parts.len() > 0 ==> join(parts.push(x), sep) == join(parts, sep) + sep + x,
{
    assert(parts.push(x).drop_last() == parts);
    assert(parts.push(x).last() == x);
    if parts.len() == 0 {
        assert(parts.push(x).len() == 1);
        assert(parts.push(x)[0] == x);
    }
}

/// Chunking words shorter than the limit keeps them all, in order: the
/// chunks so far and the open chunk, joined with spaces, are the words joined
/// with spaces, and the open chunk is empty only before the first word.
proof fn lemma_fold_keeps_words(ws: Seq<Seq<char>>)
    requires
        forall|i: int| 0 <= i < ws.len() ==> (#[trigger] ws[i]).len() > 0 && byte_len(ws[i]) < CHUNK_LIMIT,
    ensures
        ws.len() == 0 ==> chunk_fold(ws).0.len() == 0 && chunk_fold(ws).1.len() == 0,
        ws.len() > 0 ==> chunk_fold(ws).1.len() > 0 && join(chunk_fold(ws).0.push(chunk_fold(ws).1), " "@)
            == join(ws, " "@),
    decreases ws.len(),
{
    if ws.len() > 0 {
        let prev = ws.drop_last();
        assert forall|i: int| 0 <= i < prev.len() implies (#[trigger] prev[i]).len() > 0 && byte_len(prev[i])
            < CHUNK_LIMIT by {
            assert(prev[i] == ws[i]);
        }
        lemma_fold_keeps_words(prev);
        let (chunks, cur) = chunk_fold(prev);
        let w = ws.last();
        assert(w == ws[ws.len() - 1]);
        assert(w.len() > 0 && byte_len(w) < CHUNK_LIMIT);
        assert(ws == prev.push(w));
        lemma_join_push(prev, w, " "@);
        if prev.len() == 0 {
            lemma_byte_len_zero(cur);
            assert(cur == Seq::<char>::empty());
            assert(cur + w == w);
            lemma_join_push(chunks, w, " "@);
        } else {
            lemma_join_push(chunks, cur, " "@);
            if byte_len(cur) + byte_len(w) >= CHUNK_LIMIT {
                lemma_join_push(chunks.push(cur), w, " "@);
                assert(Seq::<char>::empty() + w == w);
            } else {
                lemma_join_push(chunks, cur.push(' ') + w, " "@);
                reveal_strlit(" ");
                assert(" "@ =~= seq![' ']);
                assert(cur.push(' ') + w =~= cur + " "@ + w);
                if chunks.len() > 0 {
                    assert(join(chunks, " "@) + " "@ + (cur + " "@ + w) == join(chunks, " "@) + " "@ + cur
                        + " "@ + w);
                }
            }
        }
    }
}

/// Chunking loses no word: when every word is shorter than the limit, the
/// chunks joined with spaces are the words joined with spaces.
pub proof fn lemma_chunks_keep_words(s: Seq<char>)
    requires
        forall|i: int| 0 <= i < words(s).len() ==> byte_len(#[trigger] words(s)[i]) < CHUNK_LIMIT,
    ensures
        join(chunks_of(s), " "@) == join(words(s), " "@),
{
    lemma_words_not_empty(s);
    let ws = words(s);
    assert forall|i: int| 0 <= i < ws.len() implies (#[trigger] ws[i]).len() > 0 && byte_len(ws[i])
        < CHUNK_LIMIT by {
        assert(words(s)[i] == ws[i]);
    }
    lemma_fold_keeps_words(ws);
    if ws.len() == 0 {
        assert(chunks_of(s) == Seq::<Seq<char>>::empty());
    }
}

/// Extracts chunks of text from plain text.
pub struct TextExtractor;

impl ContentExtract for TextExtractor {
    fn extract(&self, file_type: FileType) -> (r: Result<Vec<Content>, FinanalizeError>)
        ensures
            !(file_type is Text) ==> is_parse_error(r, invalid_input_message()),
            file_type matches FileType::Text(input) ==> (r matches Ok(v) && texts_are(
                v@,
                chunks_of(input@),
            )),
    {
        let input = match file_type {
            FileType::Text(input) => input,
            _ => {
                return Err(invalid_input());
            },
        };
        let pieces = chunk_text(input.as_str());
        let mut out: Vec<Content> = Vec::new();
        let mut k: usize = 0;
        while k < pieces.len()
            invariant
                k <= pieces.len(),
                views(pieces@) == chunks_of(input@),
                texts_are(out@, chunks_of(input@).take(k as int)),
            decreases pieces.len() - k,
        {
            out.push(Content::Text(pieces[k].clone()));
            assert(chunks_of(input@).take(k + 1) == chunks_of(input@).take(k as int).push(pieces@[k as int]@));
            k = k + 1;
        }
        assert(chunks_of(input@).take(k as int) == chunks_of(input@));
        Ok(out)
    }
}

} // verus!
