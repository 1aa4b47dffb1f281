//! Completion: the candidates a node of the command tree offers, and the
//! choice among them for the word being typed.

use vstd::prelude::*;
use crate::text::{chars_of, contains, contains_string, is_substring, lowercase, push_char, starts_with, to_lowercase, views};
use crate::tokenize::{shell_split, tokenize, TokenizeError};
use crate::tree::{find_child, referent, resolve, ArgDef, CommandNode};
use crate::laws::{lemma_empty_pool_offers_nothing, lemma_empty_word_offers_all, lemma_used_flags_not_offered};

verus! {

/// A one-letter flag or option as it is typed: a dash and the letter.
pub open spec fn short_form(letter: char) -> Seq<char> {
    seq!['-', letter]
}

/// A long flag or option as it is typed: two dashes and the name.
pub open spec fn long_form(name: Seq<char>) -> Seq<char> {
    seq!['-', '-'] + name
}

/// The forms of one flag or option, the short one first.
pub open spec fn rendered(def: ArgDef) -> Seq<Seq<char>> {
    let short = match def.short {
        Some(letter) => seq![short_form(letter)],
        None => Seq::empty(),
    };
    let long = match def.long {
        Some(name) => seq![long_form(name@)],
        None => Seq::empty(),
    };
    short + long
}

/// The forms of a list of flags or options, in the order of the list.
pub open spec fn rendered_all(defs: Seq<ArgDef>) -> Seq<Seq<char>>
    decreases defs.len(),
{
    if defs.len() == 0 {
        Seq::empty()
    } else {
        rendered_all(defs.drop_last()) + rendered(defs.last())
    }
}

/// The names of a list of nodes.
pub open spec fn child_names(nodes: Seq<CommandNode>) -> Seq<Seq<char>> {
    Seq::new(nodes.len(), |i: int| nodes[i].spec_name())
}

/// Everything that can follow a command: its subcommands' names, then its
/// flags, then its options.
pub open spec fn candidates(node: CommandNode) -> Seq<Seq<char>> {
    child_names(node.spec_children()) + rendered_all(node.spec_flags()) + rendered_all(
        node.spec_options(),
    )
}

/// `pool` with `candidate` added at its end, unless the candidate is in
/// `used` or in the pool already.
pub open spec fn offer(pool: Seq<Seq<char>>, candidate: Seq<char>, used: Seq<Seq<char>>) -> Seq<
    Seq<char>,
> {
    if used.contains(candidate) || pool.contains(candidate) {
        pool
    } else {
        pool.push(candidate)
    }
}

/// `pool` after each of `items` was offered to it in turn.
pub open spec fn offer_all(pool: Seq<Seq<char>>, items: Seq<Seq<char>>, used: Seq<Seq<char>>) -> Seq<
    Seq<char>,
>
    decreases items.len(),
{
    if items.len() == 0 {
        pool
    } else {
        offer(offer_all(pool, items.drop_last(), used), items.last(), used)
    }
}

/// The candidate pool of a node: what can follow the command, without the
/// strings in `used`, each string once, in the order of `candidates`.
pub open spec fn pool_of(node: CommandNode, used: Seq<Seq<char>>) -> Seq<Seq<char>> {
    offer_all(Seq::empty(), candidates(node), used)
}

/// Offering a list in two parts is offering the whole list.
pub proof fn lemma_offer_all_concat(
    pool: Seq<Seq<char>>,
    first: Seq<Seq<char>>,
    second: Seq<Seq<char>>,
    used: Seq<Seq<char>>,
)
    ensures
        offer_all(pool, first + second, used) == offer_all(
            offer_all(pool, first, used),
            second,
            used,
        ),
    decreases second.len(),
{
    if second.len() == 0 {
        assert(first + second == first);
    } else {
        assert((first + second).drop_last() == first + second.drop_last());
        assert((first + second).last() == second.last());
        lemma_offer_all_concat(pool, first, second.drop_last(), used);
    }
}

/// Offering one string more.
proof fn lemma_offer_all_push(
    pool: Seq<Seq<char>>,
    items: Seq<Seq<char>>,
    item: Seq<char>,
    used: Seq<Seq<char>>,
)
    ensures
        offer_all(pool, items.push(item), used) == offer(offer_all(pool, items, used), item, used),
{
    assert(items.push(item).drop_last() == items);
}

/// What was offered and not used is in the pool, and nothing else is; no
/// string is in it twice.
pub proof fn lemma_offer_all_contents(
    pool: Seq<Seq<char>>,
    items: Seq<Seq<char>>,
    used: Seq<Seq<char>>,
)
    requires
        pool.no_duplicates(),
    ensures
        offer_all(pool, items, used).no_duplicates(),
        forall|s: Seq<char>|
            offer_all(pool, items, used).contains(s) <==> pool.contains(s) || (items.contains(s)
                && !used.contains(s)),
    decreases items.len(),
{
    let result = offer_all(pool, items, used);
    if items.len() == 0 {
    } else {
        let before = offer_all(pool, items.drop_last(), used);
        lemma_offer_all_contents(pool, items.drop_last(), used);
        let last = items.last();
        assert forall|s: Seq<char>|
            result.contains(s) <==> pool.contains(s) || (items.contains(s) && !used.contains(
                s,
            )) by {
            if items.contains(s) {
                let k = choose|k: int| 0 <= k < items.len() && items[k] == s;
                if k < items.len() - 1 {
                    assert(items.drop_last()[k] == s);
                }
            }
            if items.drop_last().contains(s) {
                let k = choose|k: int| 0 <= k < items.drop_last().len() && items.drop_last()[k] == s;
                assert(items[k] == s);
            }
            assert(items[items.len() - 1] == last);
            if result == before {
            } else {
                assert(result == before.push(last));
                if before.contains(s) {
                    let k = choose|k: int| 0 <= k < before.len() && before[k] == s;
                    assert(result[k] == s);
                }
                assert(result[result.len() - 1] == last);
            }
        }
    }
}

/// Whether the word is a one-letter or long flag or option: it begins with a
/// dash.
pub open spec fn is_flag_like(token: Seq<char>) -> bool {
    token.len() > 0 && token[0] == '-'
}

/// `is_flag_like`, as a predicate.
pub open spec fn flag_like() -> spec_fn(Seq<char>) -> bool {
    |token: Seq<char>| is_flag_like(token)
}

/// The words of a line that begin with a dash, in their order.
pub open spec fn flag_tokens(tokens: Seq<Seq<char>>) -> Seq<Seq<char>> {
    tokens.filter(flag_like())
}

/// How many words of a line name the command that completion looks at, by
/// the line's first word: three below `abi`, whose commands lie one level
/// deeper than the others, and two elsewhere.
pub open spec fn depth_of(first: Seq<char>) -> nat {
    if first == "abi"@ {
        3
    } else {
        2
    }
}

/// The words of a line that resolution reads: the first `depth_of` of them.
pub open spec fn truncated(tokens: Seq<Seq<char>>) -> Seq<Seq<char>> {
    if tokens.len() == 0 || tokens.len() <= depth_of(tokens[0]) {
        tokens
    } else {
        tokens.take(depth_of(tokens[0]) as int)
    }
}

/// The node that completion looks at for a line: the one that the words
/// which resolution reads lead to.
pub open spec fn resolve_prefix(root: CommandNode, tokens: Seq<Seq<char>>) -> Option<CommandNode> {
    resolve(root, truncated(tokens))
}

/// A candidate and its lowercase form.
pub type Entry = (Seq<char>, Seq<char>);

/// The candidates of a list of entries.
pub open spec fn texts(entries: Seq<Entry>) -> Seq<Seq<char>> {
    Seq::new(entries.len(), |i: int| entries[i].0)
}

/// Whether the lowercase form of an entry holds `needle`.
pub open spec fn holds(needle: Seq<char>) -> spec_fn(Entry) -> bool {
    |entry: Entry| is_substring(needle, entry.1)
}

/// Whether an entry begins with `word`, letter case included.
pub open spec fn begins(word: Seq<char>) -> spec_fn(Entry) -> bool {
    |entry: Entry| word.is_prefix_of(entry.0)
}

/// The choice among the entries of a pool for a typed word, given the
/// word's lowercase form. If exactly one entry holds the word anywhere,
/// letter case aside, it is chosen alone. Otherwise the entries that begin
/// with the word are chosen, which for the empty word is every entry; if
/// there is none, nothing is offered.
pub open spec fn choose_from(entries: Seq<Entry>, word: Seq<char>, folded_word: Seq<char>) -> Option<
    Seq<Seq<char>>,
> {
    let eager = entries.filter(holds(folded_word));
    let prefixed = entries.filter(begins(word));
    if eager.len() == 1 {
        Some(seq![eager[0].0])
    } else if prefixed.len() == 0 {
        None
    } else {
        Some(texts(prefixed))
    }
}

/// The strings of a pool, each with its lowercase form.
pub open spec fn folded_entries(pool: Seq<Seq<char>>) -> Seq<Entry> {
    Seq::new(pool.len(), |i: int| (pool[i], lowercase(pool[i])))
}

/// What a pool offers for a typed word.
pub open spec fn completions(pool: Seq<Seq<char>>, word: Seq<char>) -> Option<Seq<Seq<char>>> {
    choose_from(folded_entries(pool), word, lowercase(word))
}

/// What the tree below `root` offers for a typed word that follows
/// `tokens` on the line: the choice from the pool of the node that the first
/// words lead to, without the flags and options typed already. Where the
/// words lead to no node, nothing is offered.
pub open spec fn complete_spec(root: CommandNode, tokens: Seq<Seq<char>>, word: Seq<char>) -> Option<
    Seq<Seq<char>>,
> {
    match resolve_prefix(root, tokens) {
        None => None,
        Some(node) => completions(pool_of(node, flag_tokens(tokens)), word),
    }
}

/// A list of offered strings, as plain values.
pub open spec fn offered(chosen: Option<Vec<String>>) -> Option<Seq<Seq<char>>> {
    match chosen {
        None => None,
        Some(list) => Some(views(list@)),
    }
}

/// Adds `candidate` to `strings` unless it is in `filter` or there already.
fn offer_string(strings: &mut Vec<String>, candidate: String, filter: &Vec<String>)
    ensures
        views(final(strings)@) == offer(views(old(strings)@), candidate@, views(filter@)),
{
    if !contains_string(filter, &candidate) && !contains_string(strings, &candidate) {
        strings.push(candidate);
        assert(views(strings@) == views(old(strings)@).push(candidate@));
    }
}

/// Offers the forms of each flag or option of `defs` to `strings`.
fn offer_forms(strings: &mut Vec<String>, defs: &Vec<ArgDef>, filter: &Vec<String>)
    ensures
        views(final(strings)@) == offer_all(
            views(old(strings)@),
            rendered_all(defs@),
            views(filter@),
        ),
{
    let ghost start = views(strings@);
    let ghost used = views(filter@);
    let mut i: usize = 0;
    assert(defs@.take(0) == Seq::<ArgDef>::empty());
    while i < defs.len()
        invariant
            i <= defs.len(),
            used == views(filter@),
            views(strings@) == offer_all(start, rendered_all(defs@.take(i as int)), used),
        decreases defs.len() - i,
    {
        let ghost done = rendered_all(defs@.take(i as int));
        let def = &defs[i];
        proof {
            assert(defs@.take(i + 1).drop_last() == defs@.take(i as int));
            assert(defs@.take(i + 1).last() == *def);
            lemma_offer_all_concat(start, done, rendered(*def), used);
        }
        let ghost mid = views(strings@);
        match def.short {
            Some(letter) => {
                let mut form = String::from_str("-");
                push_char(&mut form, letter);
                proof {
                    reveal_strlit("-");
                    assert(form@ == short_form(letter));
                }
                offer_string(strings, form, filter);
            },
            None => {},
        }
        let ghost short = match def.short {
            Some(letter) => seq![short_form(letter)],
            None => Seq::empty(),
        };
        proof {
            if def.short is Some {
                assert(short == Seq::<Seq<char>>::empty().push(short[0]));
                lemma_offer_all_push(mid, Seq::empty(), short[0], used);
            }
            assert(views(strings@) == offer_all(mid, short, used));
        }
        match &def.long {
            Some(name) => {
                let mut form = String::from_str("--");
                form.append(name.as_str());
                proof {
                    reveal_strlit("--");
                    assert(form@ == long_form(name@));
                    lemma_offer_all_push(mid, short, form@, used);
                    assert(rendered(*def) == short.push(form@));
                }
                offer_string(strings, form, filter);
            },
            None => {
                assert(rendered(*def) == short);
            },
        }
        i = i + 1;
    }
    assert(defs@.take(defs.len() as int) == defs@);
}

/// The candidate pool of a node: the names of its subcommands, then its
/// flags and its options as they are typed, without the strings of `filter`,
/// and each string once.
pub fn get_complete_strings(app: &CommandNode, filter: &Vec<String>) -> (strings: Vec<String>)
    ensures
        views(strings@) == pool_of(*app, views(filter@)),
        views(strings@).no_duplicates(),
        forall|s: Seq<char>|
            views(strings@).contains(s) <==> candidates(*app).contains(s) && !views(
                filter@,
            ).contains(s),
{
    let ghost used = views(filter@);
    let mut strings: Vec<String> = Vec::new();
    let children = app.children();
    let mut i: usize = 0;
    assert(views(strings@) == Seq::<Seq<char>>::empty());
    while i < children.len()
        invariant
            i <= children.len(),
            used == views(filter@),
            views(strings@) == offer_all(
                Seq::empty(),
                child_names(children@).take(i as int),
                used,
            ),
        decreases children.len() - i,
    {
        proof {
            let names = child_names(children@);
            assert(names.take(i + 1) == names.take(i as int).push(children@[i as int].spec_name()));
            lemma_offer_all_push(
                Seq::empty(),
                names.take(i as int),
                children@[i as int].spec_name(),
                used,
            );
        }
        offer_string(&mut strings, children[i].name().clone(), filter);
        i = i + 1;
    }
    proof {
        let names = child_names(children@);
        assert(names.take(children.len() as int) == names);
        lemma_offer_all_concat(Seq::empty(), names, rendered_all(app.spec_flags()), used);
        lemma_offer_all_concat(
            Seq::empty(),
            names + rendered_all(app.spec_flags()),
            rendered_all(app.spec_options()),
            used,
        );
    }
    offer_forms(&mut strings, app.flags(), filter);
    offer_forms(&mut strings, app.options(), filter);
    proof {
        lemma_offer_all_contents(Seq::empty(), candidates(*app), used);
    }
    strings
}

/// A candidate of a pool together with its lowercase form.
#[derive(Debug)]
pub struct Folded {
    pub text: String,
    pub lower: String,
}

/// The entries of a list of candidates.
pub open spec fn entries_of(candidates: Seq<Folded>) -> Seq<Entry> {
    Seq::new(candidates.len(), |i: int| (candidates[i].text@, candidates[i].lower@))
}

/// Whether a word of the line begins with a dash.
pub fn begins_with_dash(token: &str) -> (yes: bool)
    ensures
        yes == is_flag_like(token@),
{
    token.unicode_len() > 0 && token.get_char(0) == '-'
}

/// The words of a line that look like flags or options, in their order.
pub fn used_flags(tokens: &Vec<String>) -> (used: Vec<String>)
    ensures
        views(used@) == flag_tokens(views(tokens@)),
{
    let ghost all = views(tokens@);
    let mut used: Vec<String> = Vec::new();
    let mut i: usize = 0;
    proof {
        reveal(Seq::filter);
        assert(all.take(0) == Seq::<Seq<char>>::empty());
        assert(views(used@) == flag_tokens(all.take(0)));
    }
    while i < tokens.len()
        invariant
            i <= tokens.len(),
            all == views(tokens@),
            views(used@) == flag_tokens(all.take(i as int)),
        decreases tokens.len() - i,
    {
        proof {
            assert(all.take(i + 1) == all.take(i as int).push(tokens@[i as int]@));
            all.take(i as int).lemma_filter_push(tokens@[i as int]@, flag_like());
        }
        if begins_with_dash(tokens[i].as_str()) {
            let ghost before = views(used@);
            used.push(tokens[i].clone());
            assert(views(used@) == before.push(tokens@[i as int]@));
        }
        i = i + 1;
    }
    assert(all.take(tokens.len() as int) == all);
    used
}

/// How many words of a line resolution reads, by the line's first word.
pub fn resolution_depth(first: &String) -> (depth: usize)
    ensures
        depth == depth_of(first@),
{
    if *first == String::from_str("abi") {
        3
    } else {
        2
    }
}

/// Cuts a line's words down to those that resolution reads.
pub fn truncate_prefix(tokens: &mut Vec<String>)
    ensures
        views(final(tokens)@) == truncated(views(old(tokens)@)),
{
    if tokens.len() > 0 {
        let depth = resolution_depth(&tokens[0]);
        tokens.truncate(depth);
    }
    assert(views(tokens@) == truncated(views(old(tokens)@)));
}

/// Chooses among the candidates of a pool for a typed word, given the word's
/// lowercase form and each candidate's.
pub fn select(candidates: &Vec<Folded>, word: &str, folded_word: &str) -> (chosen: Option<
    Vec<String>,
>)
    ensures
        offered(chosen) == choose_from(entries_of(candidates@), word@, folded_word@),
{
    let ghost entries = entries_of(candidates@);
    let typed = chars_of(word);
    let needle = chars_of(folded_word);
    let mut hits: usize = 0;
    let mut target: usize = 0;
    let mut matches: Vec<String> = Vec::new();
    let mut i: usize = 0;
    proof {
        reveal(Seq::filter);
        assert(entries.take(0) == Seq::<Entry>::empty());
        assert(views(matches@) == texts(entries.take(0).filter(begins(typed@))));
    }
    while i < candidates.len()
        invariant
            i <= candidates.len(),
            entries == entries_of(candidates@),
            hits <= i,
            hits == entries.take(i as int).filter(holds(needle@)).len(),
            hits > 0 ==> target < i && entries.take(i as int).filter(holds(needle@)).last()
                == entries[target as int],
            views(matches@) == texts(entries.take(i as int).filter(begins(typed@))),
        decreases candidates.len() - i,
    {
        let candidate = &candidates[i];
        proof {
            assert(entries.take(i + 1) == entries.take(i as int).push(entries[i as int]));
            entries.take(i as int).lemma_filter_push(entries[i as int], holds(needle@));
            entries.take(i as int).lemma_filter_push(entries[i as int], begins(typed@));
        }
        let lower = chars_of(candidate.lower.as_str());
        if contains(&lower, &needle) {
            hits = hits + 1;
            target = i;
        }
        let text = chars_of(candidate.text.as_str());
        if starts_with(&text, &typed) {
            let ghost before = views(matches@);
            matches.push(candidate.text.clone());
            assert(views(matches@) == before.push(candidate.text@));
            assert(views(matches@) == texts(
                entries.take(i as int).filter(begins(typed@)).push(entries[i as int]),
            ));
        }
        i = i + 1;
    }
    assert(entries.take(candidates.len() as int) == entries);
    if hits == 1 {
        let mut single: Vec<String> = Vec::new();
        single.push(candidates[target].text.clone());
        assert(views(single@) == seq![entries[target as int].0]);
        Some(single)
    } else if matches.len() == 0 {
        None
    } else {
        Some(matches)
    }
}

/// What the node offers for a typed word, when the strings of `used` were
/// typed before it.
pub fn complete_in(node: &CommandNode, used: &Vec<String>, word: &str) -> (chosen: Option<
    Vec<String>,
>)
    ensures
        offered(chosen) == completions(pool_of(*node, views(used@)), word@),
        word@.len() == 0 && pool_of(*node, views(used@)).len() > 0 ==> offered(chosen) == Some(
            pool_of(*node, views(used@)),
        ),
{
    let strings = get_complete_strings(node, used);
    let folded_word = to_lowercase(word);
    let mut candidates: Vec<Folded> = Vec::new();
    let mut i: usize = 0;
    while i < strings.len()
        invariant
            i <= strings.len(),
            entries_of(candidates@) == folded_entries(views(strings@)).take(i as int),
        decreases strings.len() - i,
    {
        let ghost before = entries_of(candidates@);
        let lower = to_lowercase(strings[i].as_str());
        candidates.push(Folded { text: strings[i].clone(), lower });
        assert(entries_of(candidates@) == before.push((strings@[i as int]@, lower@)));
        assert(entries_of(candidates@) == folded_entries(views(strings@)).take(i + 1));
        i = i + 1;
    }
    assert(folded_entries(views(strings@)).take(strings.len() as int) == folded_entries(
        views(strings@),
    ));
    proof {
        let entries = folded_entries(views(strings@));
        if word@.len() == 0 && entries.len() > 0 {
            lemma_empty_word_offers_all(entries, word@, folded_word@);
            assert(texts(entries) == views(strings@));
        }
    }
    select(&candidates, word, folded_word.as_str())
}

/// Completion over one command tree.
pub struct CitaCompleter {
    clap_app: CommandNode,
}

impl CitaCompleter {
    #[verifier::type_invariant]
    spec fn root_has_no_name(self) -> bool {
        self.clap_app.spec_name().len() == 0
    }

    /// The tree that completion walks.
    pub closed spec fn tree(self) -> CommandNode {
        self.clap_app
    }

    /// A completer over the tree that starts at `clap_app`. The tree's root
    /// has no name, whatever the node given was called: a line's first word
    /// names one of its subcommands.
    pub fn new(clap_app: CommandNode) -> (completer: CitaCompleter)
        ensures
            completer.tree().spec_name().len() == 0,
            completer.tree().spec_flags() == clap_app.spec_flags(),
            completer.tree().spec_options() == clap_app.spec_options(),
            completer.tree().spec_children() == clap_app.spec_children(),
    {
        CitaCompleter { clap_app: clap_app.into_root() }
    }

    /// The root of the tree.
    pub fn root(&self) -> (root: &CommandNode)
        ensures
            *root == self.tree(),
            root.spec_name().len() == 0,
    {
        proof {
            use_type_invariant(self);
        }
        &self.clap_app
    }

    /// Walks from `app` along `prefix_names` and gives the node reached, if
    /// every word named a subcommand of the node before it.
    pub fn find_subcommand<'p>(app: &'p CommandNode, prefix_names: &Vec<String>) -> (found:
        Option<&'p CommandNode>)
        ensures
            referent(found) == resolve(*app, views(prefix_names@)),
    {
        let mut current: &'p CommandNode = app;
        let mut i: usize = 0;
        assert(views(prefix_names@).skip(0) == views(prefix_names@));
        while i < prefix_names.len()
            invariant
                i <= prefix_names.len(),
                resolve(*app, views(prefix_names@)) == resolve(
                    *current,
                    views(prefix_names@).skip(i as int),
                ),
            decreases prefix_names.len() - i,
        {
            let ghost rest = views(prefix_names@).skip(i as int);
            assert(rest[0] == prefix_names@[i as int]@);
            assert(rest.drop_first() == views(prefix_names@).skip(i + 1));
            match find_child(current, &prefix_names[i]) {
                None => {
                    return None;
                },
                Some(child) => {
                    current = child;
                },
            }
            i = i + 1;
        }
        Some(current)
    }

    /// What is offered for `word` when `tokens` are the words before it.
    pub fn complete_tokens(&self, tokens: &Vec<String>, word: &str) -> (chosen: Option<
        Vec<String>,
    >)
        ensures
            offered(chosen) == complete_spec(self.tree(), views(tokens@), word@),
            chosen matches Some(list) ==> forall|s: Seq<char>|
                views(list@).contains(s) ==> !flag_tokens(views(tokens@)).contains(s),
            word@.len() == 0 ==> match resolve_prefix(self.tree(), views(tokens@)) {
                None => chosen is None,
                Some(node) => {
                    let pool = pool_of(node, flag_tokens(views(tokens@)));
                    offered(chosen) == if pool.len() > 0 {
                        Some(pool)
                    } else {
                        None
                    }
                },
            },
    {
        let filter = used_flags(tokens);
        let mut args = tokens.clone();
        assert(views(args@) == views(tokens@)) by {
            assert(args@.len() == tokens@.len());
            assert forall|k: int| 0 <= k < args@.len() implies args@[k]@ == tokens@[k]@ by {}
        }
        truncate_prefix(&mut args);
        let chosen = match Self::find_subcommand(&self.clap_app, &args) {
            None => None,
            Some(current_app) => {
                proof {
                    let entries = folded_entries(pool_of(*current_app, views(filter@)));
                    if entries.len() == 0 {
                        lemma_empty_pool_offers_nothing(entries, word@, lowercase(word@));
                    }
                }
                complete_in(current_app, &filter, word)
            },
        };
        proof {
            lemma_used_flags_not_offered(self.tree(), views(tokens@), word@);
            if chosen is Some {
                let list = views(chosen->Some_0@);
                let used = flag_tokens(views(tokens@));
                assert(complete_spec(self.tree(), views(tokens@), word@) == Some(list));
                assert forall|s: Seq<char>| list.contains(s) implies !used.contains(s) by {
                    assert(complete_spec(self.tree(), views(tokens@), word@)->Some_0.contains(s));
                }
            }
        }
        chosen
    }

    /// What is offered for `word` when `line` is the text before it. A line
    /// that cannot be split into words is an error.
    pub fn complete(&self, word: &str, line: &str) -> (chosen: Result<
        Option<Vec<String>>,
        TokenizeError,
    >)
        ensures
            match shell_split(line@) {
                None => chosen == Err::<Option<Vec<String>>, TokenizeError>(
                    TokenizeError::MissingClosingQuote,
                ),
                Some(tokens) => chosen is Ok && offered(chosen->Ok_0) == complete_spec(
                    self.tree(),
                    tokens,
                    word@,
                ),
            },
    {
        match tokenize(line) {
            Err(error) => Err(error),
            Ok(tokens) => Ok(self.complete_tokens(&tokens, word)),
        }
    }
}

} // verus!
