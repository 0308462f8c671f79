//! The query-string filter language of the list endpoints.
//!
//! A filter is either a JSON object, `{"key": "value", ...}`, whose entries
//! all have to hold, or the word form. In the word form a filter such as
//! `name:foo bar & hidden:false | id:42` is split at white space.
//! `key:value` starts a clause whose value runs on over the following
//! words up to the next `&` or `|`; clauses joined by `&` (or by nothing)
//! form a group, and `|` closes a group. A clause whose key no mapping knows
//! is dropped. The list endpoints match rows that satisfy every clause of at
//! least one group.

use vstd::prelude::*;
use crate::text::{chars_of, chars_equal, find_char, first_index_of, split_whitespace, string_from_chars, ws_tokens};

verus! {

/// One recognised clause: the index of the mapping whose key matched, and
/// the value written after the colon.
pub struct FilterClause {
    pub mapping: usize,
    pub value: String,
}

impl View for FilterClause {
    type V = (usize, Seq<char>);

    open spec fn view(&self) -> (usize, Seq<char>) {
        (self.mapping, self.value@)
    }
}

pub open spec fn clauses_view(v: Seq<FilterClause>) -> Seq<(usize, Seq<char>)> {
    v.map_values(|c: FilterClause| c@)
}

pub open spec fn groups_view(v: Seq<Vec<FilterClause>>) -> Seq<Seq<(usize, Seq<char>)>> {
    v.map_values(|g: Vec<FilterClause>| clauses_view(g@))
}

pub open spec fn strings_view(v: Seq<String>) -> Seq<Seq<char>> {
    v.map_values(|s: String| s@)
}

/// The word `&` or the word `|`.
pub open spec fn is_op(t: Seq<char>) -> bool {
    t.len() == 1 && (t[0] == '&' || t[0] == '|')
}

pub open spec fn is_and(t: Seq<char>) -> bool {
    t.len() == 1 && t[0] == '&'
}

pub open spec fn is_or(t: Seq<char>) -> bool {
    t.len() == 1 && t[0] == '|'
}

/// The index of the first operator word at or after `i` (or the end).
pub open spec fn value_end(t: Seq<Seq<char>>, i: int) -> int
    decreases t.len() - i,
{
    if i >= t.len() || is_op(t[i]) {
        i
    } else {
        value_end(t, i + 1)
    }
}

/// The words `t[from..to]`, each preceded by one space.
pub open spec fn join_words(t: Seq<Seq<char>>, from: int, to: int) -> Seq<char>
    decreases to - from,
{
    if from >= to {
        seq![]
    } else {
        seq![' '] + t[from] + join_words(t, from + 1, to)
    }
}

/// The index of the first key equal to `key`.
pub open spec fn key_index(keys: Seq<Seq<char>>, key: Seq<char>) -> Option<int> {
    if exists|k: int| 0 <= k < keys.len() && keys[k] == key {
        Some(
            choose|k: int|
                0 <= k < keys.len() && keys[k] == key && forall|m: int| 0 <= m < k ==> keys[m] != key,
        )
    } else {
        None
    }
}

/// The clause that the word `t[i]`, holding a colon, starts: its key is the
/// part before the first colon, its value the part after it followed by the
/// words up to `j`.
pub open spec fn clause_at(t: Seq<Seq<char>>, keys: Seq<Seq<char>>, i: int, j: int) -> Option<
    (usize, Seq<char>),
> {
    let w = t[i];
    let pos = first_index_of(w, ':').unwrap();
    let key = w.subrange(0, pos);
    let value = w.subrange(pos + 1, w.len() as int) + join_words(t, i + 1, j);
    match key_index(keys, key) {
        Some(k) => Some((k as usize, value)),
        None => None,
    }
}

/// Adds a finished group, unless it is empty.
pub open spec fn close_group(or_acc: Seq<Seq<(usize, Seq<char>)>>, and_acc: Seq<(usize, Seq<char>)>) -> Seq<Seq<(usize, Seq<char>)>> {
    if and_acc.len() > 0 {
        or_acc.push(and_acc)
    } else {
        or_acc
    }
}

/// The groups of clauses read from word `i` on, given the clauses of the
/// open group and the groups closed so far.
pub open spec fn groups_from(
    t: Seq<Seq<char>>,
    keys: Seq<Seq<char>>,
    i: int,
    and_acc: Seq<(usize, Seq<char>)>,
    or_acc: Seq<Seq<(usize, Seq<char>)>>,
) -> Seq<Seq<(usize, Seq<char>)>>
    decreases t.len() - i,
{
    if i < 0 || i >= t.len() {
        close_group(or_acc, and_acc)
    } else if is_and(t[i]) {
        groups_from(t, keys, i + 1, and_acc, or_acc)
    } else if is_or(t[i]) {
        groups_from(t, keys, i + 1, seq![], close_group(or_acc, and_acc))
    } else if first_index_of(t[i], ':') is Some {
        let j = value_end(t, i + 1);
        if i < j <= t.len() {
            match clause_at(t, keys, i, j) {
                Some(c) => groups_from(t, keys, j, and_acc.push(c), or_acc),
                None => groups_from(t, keys, j, and_acc, or_acc),
            }
        } else {
            close_group(or_acc, and_acc)
        }
    } else {
        groups_from(t, keys, i + 1, and_acc, or_acc)
    }
}

/// The groups of clauses that a filter in the word form denotes, for the
/// mapping keys `keys`: no filter denotes no group.
pub open spec fn token_groups_spec(filter: Option<Seq<char>>, keys: Seq<Seq<char>>) -> Seq<
    Seq<(usize, Seq<char>)>,
> {
    match filter {
        Some(f) => groups_from(ws_tokens(f), keys, 0, seq![], seq![]),
        None => seq![],
    }
}

/// The clauses read from word `i` on when `&` and `|` are both ignored, as
/// the filters on a related table read them.
pub open spec fn cross_from(t: Seq<Seq<char>>, keys: Seq<Seq<char>>, i: int) -> Seq<(usize, Seq<char>)>
    decreases t.len() - i,
{
    if i < 0 || i >= t.len() {
        seq![]
    } else if is_op(t[i]) {
        cross_from(t, keys, i + 1)
    } else if first_index_of(t[i], ':') is Some {
        let j = value_end(t, i + 1);
        if i < j <= t.len() {
            match clause_at(t, keys, i, j) {
                Some(c) => seq![c] + cross_from(t, keys, j),
                None => cross_from(t, keys, j),
            }
        } else {
            seq![]
        }
    } else {
        cross_from(t, keys, i + 1)
    }
}

/// The clauses of a filter in the word form on a related table: none when
/// there is no filter, when it is empty, or when no clause is recognised.
pub open spec fn token_cross_spec(filter: Option<Seq<char>>, keys: Seq<Seq<char>>) -> Option<
    Seq<(usize, Seq<char>)>,
> {
    match filter {
        Some(f) => if f.len() == 0 {
            None
        } else {
            let c = cross_from(ws_tokens(f), keys, 0);
            if c.len() == 0 {
                None
            } else {
                Some(c)
            }
        },
        None => None,
    }
}

proof fn lemma_value_end_bounds(t: Seq<Seq<char>>, i: int)
    requires
        0 <= i <= t.len(),
    ensures
        i <= value_end(t, i) <= t.len(),
        forall|k: int| i <= k < value_end(t, i) ==> !is_op(#[trigger] t[k]),
        value_end(t, i) < t.len() ==> is_op(t[value_end(t, i)]),
    decreases t.len() - i,
{
    if i < t.len() && !is_op(t[i]) {
        lemma_value_end_bounds(t, i + 1);
    }
}

proof fn lemma_join_words_step(t: Seq<Seq<char>>, from: int, to: int)
    requires
        from <= to,
    ensures
        join_words(t, from, to + 1) == join_words(t, from, to) + seq![' '] + t[to],
    decreases to - from,
{
    if from < to {
        lemma_join_words_step(t, from + 1, to);
        assert(seq![' '] + t[from] + join_words(t, from + 1, to + 1) =~= seq![' '] + t[from]
            + join_words(t, from + 1, to) + seq![' '] + t[to]);
    } else {
        assert(join_words(t, to + 1, to + 1) =~= Seq::<char>::empty());
        assert(join_words(t, from, to) =~= Seq::<char>::empty());
        assert(seq![' '] + t[to] + Seq::<char>::empty() =~= Seq::<char>::empty() + seq![' '] + t[to]);
    }
}

/// Whether the word is the single character `c`.
fn is_single(w: &Vec<char>, c: char) -> (r: bool)
    ensures
        r == (w@.len() == 1 && w@[0] == c),
{
    w.len() == 1 && w[0] == c
}

/// The index of the first key equal to `key`.
fn find_key(keys: &Vec<String>, key: &Vec<char>) -> (r: Option<usize>)
    ensures
        match r {
            Some(k) => key_index(strings_view(keys@), key@) == Some(k as int),
            None => key_index(strings_view(keys@), key@) is None,
        },
{
    let ghost ks = strings_view(keys@);
    let mut k: usize = 0;
    while k < keys.len()
        invariant
            ks == strings_view(keys@),
            k <= keys.len(),
            forall|m: int| 0 <= m < k ==> ks[m] != key@,
        decreases keys.len() - k,
    {
        let kc = chars_of(keys[k].as_str());
        if chars_equal(&kc, key) {
            proof {
                assert(ks[k as int] == key@);
                let w = choose|w: int|
                    0 <= w < ks.len() && ks[w] == key@ && forall|m: int| 0 <= m < w ==> ks[m] != key@;
                if w < k { assert(ks[w] != key@); }
                if w > k { assert(ks[k as int] != key@); }
            }
            return Some(k);
        }
        k = k + 1;
    }
    None
}

/// The characters `w[from..to]`.
fn sub_chars(w: &Vec<char>, from: usize, to: usize) -> (r: Vec<char>)
    requires
        from <= to <= w.len(),
    ensures
        r@ == w@.subrange(from as int, to as int),
{
    let mut out: Vec<char> = Vec::new();
    let mut p = from;
    while p < to
        invariant
            from <= p <= to <= w.len(),
            out@ == w@.subrange(from as int, p as int),
        decreases to - p,
    {
        out.push(w[p]);
        p = p + 1;
    }
    out
}

/// Appends the characters of `w` to `v`.
fn append_chars(v: &mut Vec<char>, w: &Vec<char>)
    ensures
        final(v)@ == old(v)@ + w@,
{
    let mut m: usize = 0;
    while m < w.len()
        invariant
            m <= w.len(),
            v@ == old(v)@ + w@.subrange(0, m as int),
        decreases w.len() - m,
    {
        v.push(w[m]);
        m = m + 1;
    }
    assert(w@.subrange(0, w.len() as int) =~= w@);
}

/// The words from `from` up to the next operator word, each preceded by a
/// space, and the index of that operator word (or the end).
fn join_following(words: &Vec<Vec<char>>, from: usize) -> (r: (Vec<char>, usize))
    requires
        0 < from <= words.len(),
    ensures
        r.1 == value_end(words@.map_values(|w: Vec<char>| w@), from as int),
        from <= r.1 <= words.len(),
        r.0@ == join_words(words@.map_values(|w: Vec<char>| w@), from as int, r.1 as int),
{
    let ghost t = words@.map_values(|w: Vec<char>| w@);
    let mut value: Vec<char> = Vec::new();
    proof {
        lemma_value_end_bounds(t, from as int);
        assert(join_words(t, from as int, from as int) =~= Seq::<char>::empty());
    }
    let mut j = from;
    while j < words.len() && !is_single(&words[j], '&') && !is_single(&words[j], '|')
        invariant
            t == words@.map_values(|w: Vec<char>| w@),
            from <= j <= words.len(),
            value_end(t, from as int) == value_end(t, j as int),
            value@ == join_words(t, from as int, j as int),
        decreases words.len() - j,
    {
        value.push(' ');
        append_chars(&mut value, &words[j]);
        proof {
            lemma_join_words_step(t, from as int, j as int);
            assert(value@ =~= join_words(t, from as int, j + 1));
        }
        j = j + 1;
    }
    proof {
        assert(value_end(t, j as int) == j as int);
    }
    (value, j)
}

/// Reads the clause that starts at word `i` (which holds its first colon at
/// `pos`): returns it when its key is known, and the index of the next word
/// to read.
fn read_clause(words: &Vec<Vec<char>>, keys: &Vec<String>, i: usize, pos: usize) -> (r: (
    Option<FilterClause>,
    usize,
))
    requires
        i < words.len(),
        first_index_of(words@[i as int]@, ':') == Some(pos as int),
        pos < words@[i as int]@.len(),
    ensures
        r.1 == value_end(words@.map_values(|w: Vec<char>| w@), i + 1),
        i < r.1 <= words.len(),
        match r.0 {
            Some(c) => clause_at(words@.map_values(|w: Vec<char>| w@), strings_view(keys@), i as int, r.1 as int) == Some(c@),
            None => clause_at(words@.map_values(|w: Vec<char>| w@), strings_view(keys@), i as int, r.1 as int) is None,
        },
{
    let ghost t = words@.map_values(|w: Vec<char>| w@);
    let w = &words[i];
    assert(w@ == words@[i as int]@);
    assert(pos < w.len());
    let key = sub_chars(w, 0, pos);
    let mut value = sub_chars(w, pos + 1, w.len());
    let (rest, j) = join_following(words, i + 1);
    append_chars(&mut value, &rest);
    assert(t[i as int] == w@);
    let mapping = find_key(keys, &key);
    match mapping {
        Some(k) => (Some(FilterClause { mapping: k, value: string_from_chars(&value) }), j),
        None => (None, j),
    }
}

/// The groups of clauses of a filter in the word form, for mappings whose
/// keys are `keys` in order.
pub fn token_filter_groups(filter: &Option<String>, keys: &Vec<String>) -> (r: Vec<
    Vec<FilterClause>,
>)
    ensures
        groups_view(r@) == token_groups_spec(
            match filter {
                Some(f) => Some(f@),
                None => None,
            },
            strings_view(keys@),
        ),
{
    match filter {
        None => Vec::new(),
        Some(f) => {
            let words = words_of(f);
            let ghost t = words@.map_values(|w: Vec<char>| w@);
            let ghost ks = strings_view(keys@);
            proof {
                assert(t == ws_tokens(f@));
                assert(clauses_view(Seq::<FilterClause>::empty()) =~= Seq::<(usize, Seq<char>)>::empty());
                assert(groups_view(Seq::<Vec<FilterClause>>::empty()) =~= Seq::<Seq<(usize, Seq<char>)>>::empty());
            }
            let mut and_acc: Vec<FilterClause> = Vec::new();
            let mut or_acc: Vec<Vec<FilterClause>> = Vec::new();
            let mut i: usize = 0;
            while i < words.len()
                invariant
                    t == words@.map_values(|w: Vec<char>| w@),
                    ks == strings_view(keys@),
                    i <= words.len(),
                    groups_from(t, ks, 0, seq![], seq![]) == groups_from(
                        t,
                        ks,
                        i as int,
                        clauses_view(and_acc@),
                        groups_view(or_acc@),
                    ),
                decreases words.len() - i,
            {
                let ghost a0 = clauses_view(and_acc@);
                let ghost o0 = groups_view(or_acc@);
                if is_single(&words[i], '&') {
                    i = i + 1;
                } else if is_single(&words[i], '|') {
                    if and_acc.len() > 0 {
                        let g = and_acc;
                        and_acc = Vec::new();
                        or_acc.push(g);
                        proof {
                            assert(groups_view(or_acc@) =~= o0.push(a0));
                            assert(clauses_view(and_acc@) =~= Seq::<(usize, Seq<char>)>::empty());
                        }
                    } else {
                        proof {
                            assert(a0 =~= Seq::<(usize, Seq<char>)>::empty());
                        }
                    }
                    i = i + 1;
                } else {
                    let found = find_char(&words[i], ':');
                    match found {
                        Some(pos) => {
                            let (c, j) = read_clause(&words, keys, i, pos);
                            match c {
                                Some(cl) => {
                                    and_acc.push(cl);
                                    proof {
                                        assert(clauses_view(and_acc@) =~= a0.push(cl@));
                                    }
                                },
                                None => {},
                            }
                            i = j;
                        },
                        None => {
                            i = i + 1;
                        },
                    }
                }
            }
            if and_acc.len() > 0 {
                let ghost a0 = clauses_view(and_acc@);
                let ghost o0 = groups_view(or_acc@);
                or_acc.push(and_acc);
                proof {
                    assert(groups_view(or_acc@) =~= o0.push(a0));
                }
            }
            or_acc
        },
    }
}


/// The clauses of a filter in the word form on a related table: `&` and
/// `|` are both ignored and every recognised clause is kept; there are none
/// when the filter is absent or empty or when no clause is recognised.
fn token_cross_clauses(filter: &Option<String>, keys: &Vec<String>) -> (r: Option<
    Vec<FilterClause>,
>)
    ensures
        match r {
            Some(v) => token_cross_spec(
                match filter {
                    Some(f) => Some(f@),
                    None => None,
                },
                strings_view(keys@),
            ) == Some(clauses_view(v@)),
            None => token_cross_spec(
                match filter {
                    Some(f) => Some(f@),
                    None => None,
                },
                strings_view(keys@),
            ) is None,
        },
{
    match filter {
        None => None,
        Some(f) => {
            if f.as_str().unicode_len() == 0 {
                return None;
            }
            let words = words_of(f);
            let ghost t = words@.map_values(|w: Vec<char>| w@);
            let ghost ks = strings_view(keys@);
            let mut acc: Vec<FilterClause> = Vec::new();
            proof {
                assert(clauses_view(acc@) + cross_from(t, ks, 0) =~= cross_from(t, ks, 0));
            }
            let mut i: usize = 0;
            while i < words.len()
                invariant
                    t == words@.map_values(|w: Vec<char>| w@),
                    ks == strings_view(keys@),
                    i <= words.len(),
                    cross_from(t, ks, 0) == clauses_view(acc@) + cross_from(t, ks, i as int),
                decreases words.len() - i,
            {
                let ghost a0 = clauses_view(acc@);
                if is_single(&words[i], '&') || is_single(&words[i], '|') {
                    i = i + 1;
                } else {
                    let found = find_char(&words[i], ':');
                    match found {
                        Some(pos) => {
                            let (c, j) = read_clause(&words, keys, i, pos);
                            match c {
                                Some(cl) => {
                                    let ghost cv = cl@;
                                    acc.push(cl);
                                    proof {
                                        assert(clauses_view(acc@) =~= a0.push(cv));
                                        assert(a0 + (seq![cv] + cross_from(t, ks, j as int)) =~= a0.push(cv)
                                            + cross_from(t, ks, j as int));
                                    }
                                },
                                None => {},
                            }
                            i = j;
                        },
                        None => {
                            i = i + 1;
                        },
                    }
                }
            }
            proof {
                assert(clauses_view(acc@) + cross_from(t, ks, i as int) =~= clauses_view(acc@));
            }
            if acc.len() == 0 {
                None
            } else {
                Some(acc)
            }
        },
    }
}

/// The words of `f` split at white space, each as its characters.
fn words_of(f: &String) -> (r: Vec<Vec<char>>)
    ensures
        r@.map_values(|w: Vec<char>| w@) == ws_tokens(f@),
{
    let toks = split_whitespace(f.as_str());
    let mut words: Vec<Vec<char>> = Vec::new();
    let mut k: usize = 0;
    while k < toks.len()
        invariant
            k <= toks.len(),
            words@.map_values(|w: Vec<char>| w@) == strings_view(toks@).subrange(0, k as int),
        decreases toks.len() - k,
    {
        let ghost before = words@.map_values(|w: Vec<char>| w@);
        words.push(chars_of(toks[k].as_str()));
        proof {
            assert(words@.map_values(|w: Vec<char>| w@) =~= before.push(toks@[k as int]@));
            assert(strings_view(toks@).subrange(0, k + 1) =~= strings_view(toks@).subrange(0, k as int).push(
                toks@[k as int]@,
            ));
        }
        k = k + 1;
    }
    proof {
        assert(strings_view(toks@).subrange(0, toks.len() as int) =~= strings_view(toks@));
    }
    words
}

proof fn lemma_flatten_close_group(
    or_acc: Seq<Seq<(usize, Seq<char>)>>,
    and_acc: Seq<(usize, Seq<char>)>,
)
    ensures
        close_group(or_acc, and_acc).flatten() == or_acc.flatten() + and_acc,
{
    if and_acc.len() > 0 {
        or_acc.lemma_flatten_push(and_acc);
    } else {
        assert(or_acc.flatten() + and_acc =~= or_acc.flatten());
    }
}

#[verifier::rlimit(30)]
proof fn lemma_groups_flatten_from(
    t: Seq<Seq<char>>,
    keys: Seq<Seq<char>>,
    i: int,
    and_acc: Seq<(usize, Seq<char>)>,
    or_acc: Seq<Seq<(usize, Seq<char>)>>,
)
    ensures
        groups_from(t, keys, i, and_acc, or_acc).flatten() == or_acc.flatten() + and_acc + cross_from(
            t,
            keys,
            i,
        ),
    decreases t.len() - i,
{
    if i < 0 || i >= t.len() {
        lemma_flatten_close_group(or_acc, and_acc);
        assert(or_acc.flatten() + and_acc + Seq::<(usize, Seq<char>)>::empty() =~= or_acc.flatten()
            + and_acc);
    } else if is_and(t[i]) {
        lemma_groups_flatten_from(t, keys, i + 1, and_acc, or_acc);
    } else if is_or(t[i]) {
        lemma_groups_flatten_from(t, keys, i + 1, seq![], close_group(or_acc, and_acc));
        lemma_flatten_close_group(or_acc, and_acc);
        assert(or_acc.flatten() + and_acc + Seq::<(usize, Seq<char>)>::empty() + cross_from(t, keys, i + 1)
            =~= or_acc.flatten() + and_acc + cross_from(t, keys, i + 1));
    } else if first_index_of(t[i], ':') is Some {
        let j = value_end(t, i + 1);
        if i < j <= t.len() {
            match clause_at(t, keys, i, j) {
                Some(c) => {
                    lemma_groups_flatten_from(t, keys, j, and_acc.push(c), or_acc);
                    assert(or_acc.flatten() + and_acc.push(c) + cross_from(t, keys, j) =~= or_acc.flatten()
                        + and_acc + (seq![c] + cross_from(t, keys, j)));
                },
                None => {
                    lemma_groups_flatten_from(t, keys, j, and_acc, or_acc);
                },
            }
        } else {
            lemma_flatten_close_group(or_acc, and_acc);
            assert(or_acc.flatten() + and_acc + Seq::<(usize, Seq<char>)>::empty() =~= or_acc.flatten()
                + and_acc);
        }
    } else {
        lemma_groups_flatten_from(t, keys, i + 1, and_acc, or_acc);
    }
}

proof fn lemma_token_cross_flattened(filter: Seq<char>, keys: Seq<Seq<char>>)
    requires
        filter.len() > 0,
    ensures
        token_groups_spec(Some(filter), keys).flatten().len() == 0 ==> token_cross_spec(
            Some(filter),
            keys,
        ) is None,
        token_groups_spec(Some(filter), keys).flatten().len() > 0 ==> token_cross_spec(
            Some(filter),
            keys,
        ) == Some(token_groups_spec(Some(filter), keys).flatten()),
{
    let t = ws_tokens(filter);
    lemma_groups_flatten_from(t, keys, 0, seq![], seq![]);
    assert(Seq::<Seq<(usize, Seq<char>)>>::empty().flatten() + Seq::<(usize, Seq<char>)>::empty()
        + cross_from(t, keys, 0) =~= cross_from(t, keys, 0));
}


// ── the JSON form ──────────────────────────────────────────────────────────

/// An entry of a filter written as a JSON object: the key, and the value as
/// text (a string's contents, any other value in JSON).
#[derive(Clone, Debug)]
pub struct JsonEntry {
    pub key: String,
    pub value: String,
}

/// The entries of a filter written as a JSON object, in the order serde_json
/// keeps them; `None` when the text is not a JSON object.
pub uninterp spec fn json_filter_entries(f: Seq<char>) -> Option<Seq<(Seq<char>, Seq<char>)>>;

pub open spec fn entries_view(v: Seq<JsonEntry>) -> Seq<(Seq<char>, Seq<char>)> {
    v.map_values(|e: JsonEntry| (e.key@, e.value@))
}

/// Reads a filter as a JSON object (serde_json's `from_str` into a `Value`);
/// which texts are objects, and their entries, are named, not stated.
#[verifier::external_body]
fn json_object_entries(text: &str) -> (r: Option<Vec<JsonEntry>>)
    ensures
        match r {
            Some(v) => json_filter_entries(text@) == Some(entries_view(v@)),
            None => json_filter_entries(text@) is None,
        },
{
    match serde_json::from_str::<serde_json::Value>(text) {
        Ok(serde_json::Value::Object(m)) => Some(
            m.into_iter().map(|(key, v)| JsonEntry { key, value: match v {
                serde_json::Value::String(s) => s,
                other => other.to_string(),
            } }).collect(),
        ),
        _ => None,
    }
}

/// The clauses of a JSON filter's entries, in order: one per entry whose key
/// a mapping knows.
pub open spec fn json_clauses(es: Seq<(Seq<char>, Seq<char>)>, keys: Seq<Seq<char>>) -> Seq<
    (usize, Seq<char>),
>
    decreases es.len(),
{
    if es.len() == 0 {
        seq![]
    } else {
        let p = json_clauses(es.drop_last(), keys);
        match key_index(keys, es.last().0) {
            Some(k) => p.push((k as usize, es.last().1)),
            None => p,
        }
    }
}

/// The clauses of a JSON filter's entries (as `json_object_entries` reads
/// them), in order: one per entry whose key a mapping in `keys` knows.
pub fn json_clauses_exec(entries: Vec<JsonEntry>, keys: &Vec<String>) -> (r: Vec<FilterClause>)
    ensures
        clauses_view(r@) == json_clauses(entries_view(entries@), strings_view(keys@)),
{
    let ghost es = entries_view(entries@);
    let ghost ks = strings_view(keys@);
    let mut out: Vec<FilterClause> = Vec::new();
    let mut rest = entries;
    let mut taken: Vec<JsonEntry> = Vec::new();
    proof {
        assert(es.subrange(0, 0) =~= Seq::<(Seq<char>, Seq<char>)>::empty());
        assert(clauses_view(out@) =~= Seq::<(usize, Seq<char>)>::empty());
    }
    let n = rest.len();
    let mut i: usize = 0;
    while i < n
        invariant
            i <= n,
            n == es.len(),
            ks == strings_view(keys@),
            rest@.len() == n - i,
            forall|k: int| 0 <= k < n - i ==> (#[trigger] rest@[k]).key@ == es[i + k].0 && rest@[k].value@ == es[i + k].1,
            clauses_view(out@) == json_clauses(es.subrange(0, i as int), ks),
        decreases n - i,
    {
        let e = rest.remove(0);
        proof {
            assert(e.key@ == es[i as int].0 && e.value@ == es[i as int].1);
            assert(es.subrange(0, i + 1).drop_last() =~= es.subrange(0, i as int));
            assert(es.subrange(0, i + 1).last() == es[i as int]);
        }
        let kc = chars_of(e.key.as_str());
        match find_key(keys, &kc) {
            Some(k) => {
                let ghost before = clauses_view(out@);
                let cl = FilterClause { mapping: k, value: e.value };
                let ghost cv = cl@;
                out.push(cl);
                proof {
                    assert(clauses_view(out@) =~= before.push(cv));
                }
            },
            None => {},
        }
        i = i + 1;
    }
    proof {
        assert(es.subrange(0, n as int) =~= es);
    }
    out
}

/// The groups of clauses that a filter denotes, for the mapping keys `keys`:
/// a JSON object gives one group with a clause per known key (none when no
/// key is known); any other text is read in the word form (see the module
/// documentation); no filter denotes no group.
pub open spec fn filter_groups_spec(filter: Option<Seq<char>>, keys: Seq<Seq<char>>) -> Seq<
    Seq<(usize, Seq<char>)>,
> {
    match filter {
        Some(f) => match json_filter_entries(f) {
            Some(es) => if json_clauses(es, keys).len() > 0 {
                seq![json_clauses(es, keys)]
            } else {
                seq![]
            },
            None => token_groups_spec(Some(f), keys),
        },
        None => seq![],
    }
}

/// The clauses of a filter on a related table: none when there is no filter,
/// when it is empty, or when no clause is recognised; a JSON object gives a
/// clause per known key, any other text is read in the word form with `&`
/// and `|` ignored.
pub open spec fn cross_clauses_spec(filter: Option<Seq<char>>, keys: Seq<Seq<char>>) -> Option<
    Seq<(usize, Seq<char>)>,
> {
    match filter {
        Some(f) => if f.len() == 0 {
            None
        } else {
            match json_filter_entries(f) {
                Some(es) => if json_clauses(es, keys).len() > 0 {
                    Some(json_clauses(es, keys))
                } else {
                    None
                },
                None => token_cross_spec(Some(f), keys),
            }
        },
        None => None,
    }
}

/// The groups of clauses of a filter, for mappings whose keys are `keys` in
/// order.
pub fn filter_groups(filter: &Option<String>, keys: &Vec<String>) -> (r: Vec<Vec<FilterClause>>)
    ensures
        groups_view(r@) == filter_groups_spec(
            match filter {
                Some(f) => Some(f@),
                None => None,
            },
            strings_view(keys@),
        ),
{
    match filter {
        None => Vec::new(),
        Some(f) => match json_object_entries(f.as_str()) {
            Some(es) => {
                let c = json_clauses_exec(es, keys);
                if c.len() > 0 {
                    let ghost cv = clauses_view(c@);
                    let mut g: Vec<Vec<FilterClause>> = Vec::new();
                    g.push(c);
                    proof {
                        assert(groups_view(g@) =~= seq![cv]);
                    }
                    g
                } else {
                    proof {
                        assert(groups_view(Seq::<Vec<FilterClause>>::empty()) =~= Seq::<
                            Seq<(usize, Seq<char>)>,
                        >::empty());
                    }
                    Vec::new()
                }
            },
            None => token_filter_groups(filter, keys),
        },
    }
}

/// The clauses of a filter on a related table, for mappings whose keys are
/// `keys` in order.
pub fn cross_filter_clauses(filter: &Option<String>, keys: &Vec<String>) -> (r: Option<
    Vec<FilterClause>,
>)
    ensures
        match r {
            Some(v) => cross_clauses_spec(
                match filter {
                    Some(f) => Some(f@),
                    None => None,
                },
                strings_view(keys@),
            ) == Some(clauses_view(v@)),
            None => cross_clauses_spec(
                match filter {
                    Some(f) => Some(f@),
                    None => None,
                },
                strings_view(keys@),
            ) is None,
        },
{
    match filter {
        None => None,
        Some(f) => {
            if f.as_str().unicode_len() == 0 {
                return None;
            }
            match json_object_entries(f.as_str()) {
                Some(es) => {
                    let c = json_clauses_exec(es, keys);
                    if c.len() > 0 {
                        Some(c)
                    } else {
                        None
                    }
                },
                None => token_cross_clauses(filter, keys),
            }
        },
    }
}

/// A filter reads the same clauses whether `&` and `|` are honoured or
/// ignored: the clauses of its groups, taken in order, are the clauses that
/// a related-table filter reads from it (when there are any).
pub proof fn lemma_cross_clauses_are_flattened_groups(filter: Seq<char>, keys: Seq<Seq<char>>)
    requires
        filter.len() > 0,
    ensures
        filter_groups_spec(Some(filter), keys).flatten().len() == 0 ==> cross_clauses_spec(
            Some(filter),
            keys,
        ) is None,
        filter_groups_spec(Some(filter), keys).flatten().len() > 0 ==> cross_clauses_spec(
            Some(filter),
            keys,
        ) == Some(filter_groups_spec(Some(filter), keys).flatten()),
{
    match json_filter_entries(filter) {
        Some(es) => {
            let c = json_clauses(es, keys);
            if c.len() > 0 {
                assert(seq![c].flatten() =~= c) by {
                    seq![c].lemma_flatten_one_element();
                }
            } else {
                assert(Seq::<Seq<(usize, Seq<char>)>>::empty().flatten() =~= Seq::<(usize, Seq<char>)>::empty());
            }
        },
        None => {
            lemma_token_cross_flattened(filter, keys);
        },
    }
}

} // verus!
