//! What holds of resolution and completion on every input.

use vstd::prelude::*;
use crate::complete::{begins, choose_from, complete_spec, depth_of, flag_tokens, folded_entries, holds, lemma_offer_all_contents, pool_of, resolve_prefix, texts, truncated, Entry};
use crate::text::is_substring;
use crate::tree::CommandNode;

verus! {

/// Filtering leaves nothing where no element passes.
proof fn lemma_filter_none<A>(s: Seq<A>, pred: spec_fn(A) -> bool)
    requires
        forall|j: int| 0 <= j < s.len() ==> !pred(#[trigger] s[j]),
    ensures
        s.filter(pred).len() == 0,
    decreases s.len(),
{
    reveal(Seq::filter);
    if s.len() > 0 {
        assert(!pred(s[s.len() - 1]));
        assert forall|j: int| 0 <= j < s.drop_last().len() implies !pred(
            #[trigger] s.drop_last()[j],
        ) by {
            assert(s.drop_last()[j] == s[j]);
        }
        lemma_filter_none(s.drop_last(), pred);
    }
}

/// Filtering leaves everything where every element passes.
proof fn lemma_filter_all<A>(s: Seq<A>, pred: spec_fn(A) -> bool)
    requires
        forall|j: int| 0 <= j < s.len() ==> pred(#[trigger] s[j]),
    ensures
        s.filter(pred) == s,
    decreases s.len(),
{
    reveal(Seq::filter);
    if s.len() > 0 {
        assert(pred(s[s.len() - 1]));
        assert forall|j: int| 0 <= j < s.drop_last().len() implies pred(
            #[trigger] s.drop_last()[j],
        ) by {
            assert(s.drop_last()[j] == s[j]);
        }
        lemma_filter_all(s.drop_last(), pred);
        assert(s.drop_last().push(s.last()) == s);
    }
}

/// Filtering leaves one element where one element alone passes.
proof fn lemma_filter_single<A>(s: Seq<A>, pred: spec_fn(A) -> bool, i: int)
    requires
        0 <= i < s.len(),
        pred(s[i]),
        forall|j: int| 0 <= j < s.len() && j != i ==> !pred(#[trigger] s[j]),
    ensures
        s.filter(pred) == seq![s[i]],
    decreases s.len(),
{
    reveal(Seq::filter);
    let init = s.drop_last();
    if i == s.len() - 1 {
        assert forall|j: int| 0 <= j < init.len() implies !pred(#[trigger] init[j]) by {
            assert(init[j] == s[j]);
        }
        lemma_filter_none(init, pred);
        assert(init.filter(pred) == Seq::<A>::empty());
        assert(Seq::<A>::empty().push(s[i]) == seq![s[i]]);
    } else {
        assert(!pred(s[s.len() - 1]));
        assert(init[i] == s[i]);
        assert forall|j: int| 0 <= j < init.len() && j != i implies !pred(#[trigger] init[j]) by {
            assert(init[j] == s[j]);
        }
        lemma_filter_single(init, pred, i);
    }
}

/// Resolving a line twice gives the same node or the same failure, and so
/// does resolving the words that a first resolution has read.
pub proof fn lemma_resolution_repeats(
    root: CommandNode,
    tokens: Seq<Seq<char>>,
    again: Seq<Seq<char>>,
)
    requires
        again == tokens,
    ensures
        resolve_prefix(root, again) == resolve_prefix(root, tokens),
        truncated(truncated(tokens)) == truncated(tokens),
        resolve_prefix(root, truncated(tokens)) == resolve_prefix(root, tokens),
{
    if tokens.len() > 0 && tokens.len() > depth_of(tokens[0]) {
        let cut = tokens.take(depth_of(tokens[0]) as int);
        assert(cut[0] == tokens[0]);
    }
}

/// Resolution reads at most three words of a line that begins with `abi`
/// and at most two of any other, and the words after those change nothing.
pub proof fn lemma_words_beyond_depth_ignored(
    root: CommandNode,
    tokens: Seq<Seq<char>>,
    extra: Seq<Seq<char>>,
)
    requires
        tokens.len() > 0,
    ensures
        tokens[0] == "abi"@ ==> truncated(tokens).len() <= 3,
        tokens[0] != "abi"@ ==> truncated(tokens).len() <= 2,
        truncated(tokens) == tokens.take(truncated(tokens).len() as int),
        tokens.len() >= depth_of(tokens[0]) ==> truncated(tokens + extra) == truncated(tokens),
        tokens.len() >= depth_of(tokens[0]) ==> resolve_prefix(root, tokens + extra)
            == resolve_prefix(root, tokens),
{
    let depth = depth_of(tokens[0]) as int;
    assert(tokens.take(tokens.len() as int) == tokens);
    if tokens.len() >= depth {
        assert((tokens + extra)[0] == tokens[0]);
        assert((tokens + extra).take(depth) == tokens.take(depth));
        assert((tokens + extra).take((tokens + extra).len() as int) == tokens + extra);
    }
}

/// Whatever is chosen from a pool is in the pool.
pub proof fn lemma_chosen_from_entries(
    entries: Seq<Entry>,
    word: Seq<char>,
    folded_word: Seq<char>,
)
    ensures
        choose_from(entries, word, folded_word) matches Some(list) ==> list.len() > 0
            && forall|s: Seq<char>| list.contains(s) ==> texts(entries).contains(s),
{
    broadcast use Seq::lemma_filter_contains_rev;

    match choose_from(entries, word, folded_word) {
        None => {},
        Some(list) => {
            let eager = entries.filter(holds(folded_word));
            let prefixed = entries.filter(begins(word));
            assert forall|s: Seq<char>| list.contains(s) implies texts(entries).contains(s) by {
                let k = choose|k: int| 0 <= k < list.len() && list[k] == s;
                let entry = if eager.len() == 1 {
                    eager[0]
                } else {
                    prefixed[k]
                };
                assert(entry.0 == s);
                assert(eager.len() == 1 ==> eager.contains(eager[0]));
                assert(eager.len() != 1 ==> prefixed.contains(prefixed[k]));
                assert(entries.contains(entry));
                let at = choose|at: int| 0 <= at < entries.len() && entries[at] == entry;
                assert(texts(entries)[at] == s);
            }
        },
    }
}

/// No flag or option that was typed on the line already is offered again.
pub proof fn lemma_used_flags_not_offered(
    root: CommandNode,
    tokens: Seq<Seq<char>>,
    word: Seq<char>,
)
    ensures
        complete_spec(root, tokens, word) matches Some(list) ==> forall|s: Seq<char>|
            list.contains(s) ==> !flag_tokens(tokens).contains(s),
{
    match resolve_prefix(root, tokens) {
        None => {},
        Some(node) => {
            let used = flag_tokens(tokens);
            let pool = pool_of(node, used);
            let entries = folded_entries(pool);
            lemma_chosen_from_entries(entries, word, crate::text::lowercase(word));
            lemma_offer_all_contents(Seq::empty(), crate::complete::candidates(node), used);
            match complete_spec(root, tokens, word) {
                None => {},
                Some(list) => {
                    assert forall|s: Seq<char>| list.contains(s) implies !used.contains(s) by {
                        assert(texts(entries).contains(s));
                        let at = choose|at: int|
                            0 <= at < texts(entries).len() && texts(entries)[at] == s;
                        assert(pool[at] == s);
                        assert(pool.contains(s));
                    }
                },
            }
        },
    }
}

/// Where exactly one entry of the pool holds the typed word, letter case
/// aside, that entry is offered alone, whether or not it begins with the
/// word.
pub proof fn lemma_single_hit_is_chosen(
    entries: Seq<Entry>,
    word: Seq<char>,
    folded_word: Seq<char>,
    hit: int,
)
    requires
        0 <= hit < entries.len(),
        is_substring(folded_word, entries[hit].1),
        forall|j: int|
            0 <= j < entries.len() && j != hit ==> !is_substring(folded_word, #[trigger] entries[j].1),
    ensures
        choose_from(entries, word, folded_word) == Some(seq![entries[hit].0]),
{
    assert forall|j: int| 0 <= j < entries.len() && j != hit implies !holds(folded_word)(
        #[trigger] entries[j],
    ) by {
        assert(!is_substring(folded_word, entries[j].1));
    }
    lemma_filter_single(entries, holds(folded_word), hit);
}

/// An empty pool offers nothing, whatever was typed.
pub proof fn lemma_empty_pool_offers_nothing(
    entries: Seq<Entry>,
    word: Seq<char>,
    folded_word: Seq<char>,
)
    requires
        entries.len() == 0,
    ensures
        choose_from(entries, word, folded_word) is None,
{
    lemma_filter_none(entries, holds(folded_word));
    lemma_filter_none(entries, begins(word));
}

/// The empty word, whose lowercase form is empty too, is offered the whole
/// pool, if the pool holds anything.
pub proof fn lemma_empty_word_offers_all(
    entries: Seq<Entry>,
    word: Seq<char>,
    folded_word: Seq<char>,
)
    requires
        word.len() == 0,
        folded_word.len() == 0,
        entries.len() > 0,
    ensures
        choose_from(entries, word, folded_word) == Some(texts(entries)),
{
    assert forall|j: int| 0 <= j < entries.len() implies holds(folded_word)(
        #[trigger] entries[j],
    ) by {
        assert(entries[j].1.subrange(0, 0) == folded_word);
        assert(crate::text::occurs_at(folded_word, entries[j].1, 0));
    }
    assert forall|j: int| 0 <= j < entries.len() implies begins(word)(#[trigger] entries[j]) by {
        assert(entries[j].0.subrange(0, 0) == word);
    }
    lemma_filter_all(entries, holds(folded_word));
    lemma_filter_all(entries, begins(word));
    if entries.len() == 1 {
        assert(texts(entries) == seq![entries[0].0]);
    }
}

} // verus!
