//! What the tokenizer is held to.
use vstd::prelude::*;
use vstd::utf8::encode_utf8;

use crate::encoding::byte_char;
use crate::tokenizer::{
    best_pair, byte_symbols, byte_tokens, merged, pair_rank, piece_end, piece_end_advances,
    piece_tokens, pieces, pieces_tokens, symbol_tokens, symbols_tokens, text_tokens, VocabView,
};

verus! {

/// The entry of the merge table for two adjacent symbols: both with a space between them.
pub open spec fn merge_entry(syms: Seq<Seq<char>>, j: int) -> Seq<char> {
    syms[j] + seq![' '] + syms[j + 1]
}

/// Whether the pair at `i` is the one that is merged: it stands in the merge table, no
/// other pair in the table has a smaller rank, and none before it has the same.
pub open spec fn least_pair(
    table: Map<Seq<char>, i32>,
    syms: Seq<Seq<char>>,
    i: int,
) -> bool {
    &&& 0 <= i < syms.len() - 1
    &&& table.contains_key(merge_entry(syms, i))
    &&& forall|j: int|
        0 <= j < syms.len() - 1 && table.contains_key(#[trigger] merge_entry(syms, j)) ==> table[merge_entry(
            syms,
            j,
        )] >= table[merge_entry(syms, i)]
    &&& forall|j: int|
        0 <= j < i && table.contains_key(#[trigger] merge_entry(syms, j)) ==> table[merge_entry(
            syms,
            j,
        )] > table[merge_entry(syms, i)]
}

/// Each merge takes the first pair of the smallest rank in the merge table; where nothing
/// is merged, no pair stands in the table with a rank below the largest number.
pub proof fn merge_takes_least_rank(v: VocabView, syms: Seq<Seq<char>>)
    ensures
        match best_pair(v, syms, syms.len() - 1) {
            Some((i, r)) => least_pair(v.merge_rank, syms, i) && r == v.merge_rank[merge_entry(
                syms,
                i,
            )],
            None => forall|j: int|
                0 <= j < syms.len() - 1 && v.merge_rank.contains_key(
                    #[trigger] merge_entry(syms, j),
                ) ==> v.merge_rank[merge_entry(syms, j)] == i32::MAX,
        },
{
    lemma_least(v, syms, syms.len() - 1);
}

proof fn lemma_least(v: VocabView, syms: Seq<Seq<char>>, n: int)
    requires
        n <= syms.len() - 1,
    ensures
        match best_pair(v, syms, n) {
            Some((i, r)) => {
                &&& 0 <= i < n
                &&& v.merge_rank.contains_key(merge_entry(syms, i))
                &&& r == v.merge_rank[merge_entry(syms, i)]
                &&& r < i32::MAX
                &&& forall|j: int|
                    0 <= j < n && v.merge_rank.contains_key(#[trigger] merge_entry(syms, j))
                        ==> v.merge_rank[merge_entry(syms, j)] >= r
                &&& forall|j: int|
                    0 <= j < i && v.merge_rank.contains_key(#[trigger] merge_entry(syms, j))
                        ==> v.merge_rank[merge_entry(syms, j)] > r
            },
            None => forall|j: int|
                0 <= j < n && v.merge_rank.contains_key(#[trigger] merge_entry(syms, j))
                    ==> v.merge_rank[merge_entry(syms, j)] == i32::MAX,
        },
    decreases n,
{
    if n > 0 {
        lemma_least(v, syms, n - 1);
        assert(pair_rank(v, syms[n - 1], syms[n]) is Some == v.merge_rank.contains_key(
            merge_entry(syms, n - 1),
        ));
    }
}

/// The symbols with the pair at `i` made one.
pub open spec fn with_pair_joined(syms: Seq<Seq<char>>, i: int) -> Seq<Seq<char>> {
    Seq::new(
        (syms.len() - 1) as nat,
        |j: int|
            if j < i {
                syms[j]
            } else if j == i {
                syms[i] + syms[i + 1]
            } else {
                syms[j + 1]
            },
    )
}

/// Merging goes on from the first pair of the smallest rank; symbols of which no pair
/// stands in the merge table stay as they are.
pub proof fn merging_follows_ranks(v: VocabView, syms: Seq<Seq<char>>, i: int)
    ensures
        least_pair(v.merge_rank, syms, i) && v.merge_rank[merge_entry(syms, i)] < i32::MAX
            ==> merged(v, syms) == merged(v, with_pair_joined(syms, i)),
        (forall|j: int|
            0 <= j < syms.len() - 1 ==> !v.merge_rank.contains_key(
                #[trigger] merge_entry(syms, j),
            )) ==> merged(v, syms) == syms,
{
    merge_takes_least_rank(v, syms);
    match best_pair(v, syms, syms.len() - 1) {
        Some((k, _)) => {
            assert(v.merge_rank.contains_key(merge_entry(syms, k)));
            if least_pair(v.merge_rank, syms, i) {
                if k < i {
                    assert(v.merge_rank[merge_entry(syms, k)] > v.merge_rank[merge_entry(syms, i)]);
                } else if i < k {
                    assert(v.merge_rank[merge_entry(syms, i)] > v.merge_rank[merge_entry(syms, k)]);
                }
                assert(i == k);
                assert(syms.update(i, syms[i] + syms[i + 1]).remove(i + 1) =~= with_pair_joined(
                    syms,
                    i,
                ));
            }
        },
        None => {},
    }
}

/// The tokens of a piece: where every symbol that is left stands in the vocabulary, they
/// are the IDs of these symbols, one for one; the symbols before merging are the
/// characters that stand for the bytes.
pub proof fn known_symbols_are_tokens(v: VocabView, piece: Seq<u8>, k: int)
    ensures
        ({
            let syms = merged(v, Seq::new(piece.len(), |i: int| seq![byte_char(piece[i])]));
            (forall|j: int| 0 <= j < syms.len() ==> v.token_to_id.contains_key(#[trigger] syms[j]))
                ==> {
                &&& piece_tokens(v, piece).len() == syms.len()
                &&& 0 <= k < syms.len() ==> piece_tokens(v, piece)[k] == v.token_to_id[syms[k]]
            }
        }),
{
    let start = Seq::new(piece.len(), |i: int| seq![byte_char(piece[i])]);
    assert(byte_symbols(piece) =~= start);
    let syms = merged(v, start);
    if forall|j: int| 0 <= j < syms.len() ==> v.token_to_id.contains_key(#[trigger] syms[j]) {
        lemma_known(v, syms, syms.len());
    }
}

proof fn lemma_known(v: VocabView, syms: Seq<Seq<char>>, n: nat)
    requires
        n <= syms.len(),
        forall|j: int| 0 <= j < syms.len() ==> v.token_to_id.contains_key(#[trigger] syms[j]),
    ensures
        symbols_tokens(v, syms, n).len() == n,
        forall|j: int|
            0 <= j < n ==> #[trigger] symbols_tokens(v, syms, n)[j] == v.token_to_id[syms[j]],
    decreases n,
{
    if n > 0 {
        lemma_known(v, syms, (n - 1) as nat);
        assert(v.token_to_id.contains_key(syms[n - 1]));
        assert(symbols_tokens(v, syms, n) =~= symbols_tokens(v, syms, (n - 1) as nat).push(
            v.token_to_id[syms[n - 1]],
        ));
    }
}

/// A symbol that is no token gives the tokens of the characters that stand for its UTF-8
/// bytes, one for each byte where all of them are tokens, and none where none is.
pub proof fn unknown_symbols_fall_to_bytes(v: VocabView, sym: Seq<char>, k: int)
    requires
        !v.token_to_id.contains_key(sym),
    ensures
        ({
            let b = vstd::utf8::encode_utf8(sym);
            &&& (forall|j: int|
                0 <= j < b.len() ==> v.token_to_id.contains_key(seq![byte_char(#[trigger] b[j])]))
                ==> {
                &&& symbol_tokens(v, sym).len() == b.len()
                &&& 0 <= k < b.len() ==> symbol_tokens(v, sym)[k] == v.token_to_id[seq![
                    byte_char(b[k]),
                ]]
            }
            &&& (forall|j: int|
                0 <= j < b.len() ==> !v.token_to_id.contains_key(seq![byte_char(#[trigger] b[j])]))
                ==> symbol_tokens(v, sym).len() == 0
        }),
{
    let b = vstd::utf8::encode_utf8(sym);
    lemma_bytes(v, b, 0);
}

proof fn lemma_bytes(v: VocabView, b: Seq<u8>, i: int)
    requires
        0 <= i <= b.len(),
    ensures
        (forall|j: int|
            0 <= j < b.len() ==> v.token_to_id.contains_key(seq![byte_char(#[trigger] b[j])])) ==> {
            &&& byte_tokens(v, b, i).len() == b.len() - i
            &&& forall|k: int|
                0 <= k < b.len() - i ==> #[trigger] byte_tokens(v, b, i)[k] == v.token_to_id[seq![
                    byte_char(b[i + k]),
                ]]
        },
        (forall|j: int|
            0 <= j < b.len() ==> !v.token_to_id.contains_key(seq![byte_char(#[trigger] b[j])]))
            ==> byte_tokens(v, b, i).len() == 0,
    decreases b.len() - i,
{
    if i < b.len() {
        lemma_bytes(v, b, i + 1);
        let key = seq![byte_char(b[i])];
        if forall|j: int|
            0 <= j < b.len() ==> v.token_to_id.contains_key(seq![byte_char(#[trigger] b[j])]) {
            assert(v.token_to_id.contains_key(key));
            let rest = byte_tokens(v, b, i + 1);
            let all = byte_tokens(v, b, i);
            assert(all =~= seq![v.token_to_id[key]] + rest);
            assert forall|k: int| 0 <= k < b.len() - i implies #[trigger] all[k]
                == v.token_to_id[seq![byte_char(b[i + k])]] by {
                if k > 0 {
                    assert(all[k] == rest[k - 1]);
                }
            }
        }
        if forall|j: int|
            0 <= j < b.len() ==> !v.token_to_id.contains_key(seq![byte_char(#[trigger] b[j])]) {
            assert(!v.token_to_id.contains_key(key));
        }
    }
}

/// The tokens of the pieces of a text follow one another as the pieces do.
pub proof fn piece_tokens_follow(v: VocabView, first: Seq<Seq<u8>>, rest: Seq<Seq<u8>>)
    ensures
        pieces_tokens(v, first + rest) == pieces_tokens(v, first) + pieces_tokens(v, rest),
        first.len() == 1 ==> pieces_tokens(v, first) == piece_tokens(v, first[0]),
        first.len() == 0 ==> pieces_tokens(v, first).len() == 0,
    decreases first.len(),
{
    if first.len() == 0 {
        assert(first + rest =~= rest);
        assert(pieces_tokens(v, first) + pieces_tokens(v, rest) =~= pieces_tokens(v, rest));
    } else {
        assert((first + rest).drop_first() =~= first.drop_first() + rest);
        piece_tokens_follow(v, first.drop_first(), rest);
        assert(pieces_tokens(v, first + rest) =~= pieces_tokens(v, first) + pieces_tokens(v, rest));
        if first.len() == 1 {
            assert(pieces_tokens(v, first) =~= piece_tokens(v, first[0]));
        }
    }
}

/// Whether the places cut the bytes into their pieces, from `pos` to the end.
pub open spec fn cuts(b: Seq<u8>, pos: int, at: Seq<int>) -> bool {
    &&& at.len() > 0 && at[0] == pos && at.last() == b.len()
    &&& forall|i: int, j: int|
        0 <= i && j == i + 1 && j < at.len() ==> #[trigger] at[i] < #[trigger] at[j] == piece_end(
            b,
            at[i],
        )
}

/// The bytes between one place and the next.
pub open spec fn cut_at(b: Seq<u8>, at: Seq<int>) -> Seq<Seq<u8>>
    recommends
        at.len() > 0,
{
    Seq::new((at.len() - 1) as nat, |i: int| b.subrange(at[i], at[i + 1]))
}

/// A text is tokenized from its first byte to its last: it is cut where each piece ends,
/// and its tokens are those of the pieces, one after another.
pub proof fn texts_are_tokenized_whole(v: VocabView, text: Seq<char>)
    ensures
        exists|at: Seq<int>| #[trigger]
            cuts(encode_utf8(text), 0, at) && text_tokens(v, text) == pieces_tokens(
                v,
                cut_at(encode_utf8(text), at),
            ),
{
    let at = lemma_cuts(encode_utf8(text), 0);
    assert(cuts(encode_utf8(text), 0, at));
}

proof fn lemma_cuts(b: Seq<u8>, pos: int) -> (at: Seq<int>)
    requires
        0 <= pos <= b.len(),
    ensures
        cuts(b, pos, at),
        cut_at(b, at) == pieces(b, pos),
    decreases b.len() - pos,
{
    if pos < b.len() {
        piece_end_advances(b, pos);
        let end = piece_end(b, pos);
        let rest = lemma_cuts(b, end);
        let at = seq![pos] + rest;
        assert forall|i: int, j: int| 0 <= i && j == i + 1 && j < at.len() implies #[trigger] at[i]
            < #[trigger] at[j] == piece_end(b, at[i]) by {
            if i > 0 {
                assert(at[i] == rest[i - 1] && at[j] == rest[j - 1]);
            }
        }
        assert(at.last() == rest.last());
        assert forall|i: int| 0 <= i < at.len() - 1 implies #[trigger] cut_at(b, at)[i] == pieces(
            b,
            pos,
        )[i] by {
            if i > 0 {
                assert(cut_at(b, at)[i] == cut_at(b, rest)[i - 1]);
            }
        }
        assert(pieces(b, pos).len() == cut_at(b, rest).len() + 1);
        assert(cut_at(b, at) =~= pieces(b, pos));
        at
    } else {
        let at = seq![pos];
        assert(cut_at(b, at) =~= pieces(b, pos));
        at
    }
}

} // verus!
