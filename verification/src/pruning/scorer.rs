//! Tool chains, chain-wide scores and the choice of prune candidates.
use vstd::prelude::*;

use super::{ScoredMessage, ToolChain};
use crate::text::{str_eq, string_views};
use crate::config::PruningConfig;
use crate::turn::{kind_is_summary, kind_tool_call_id, kind_tool_calls, Turn};
use crate::turn;

verus! {

/// A tool chain as numbers and texts.
pub struct ChainModel {
    pub start: int,
    pub end: int,
    pub ids: Seq<Seq<char>>,
}

/// The model of a tool chain.
pub open spec fn chain_model(c: ToolChain) -> ChainModel {
    ChainModel { start: c.start_index as int, end: c.end_index as int, ids: string_views(c.tool_call_ids@) }
}

/// The models of a list of tool chains.
pub open spec fn chain_models(v: Seq<ToolChain>) -> Seq<ChainModel> {
    v.map_values(|c: ToolChain| chain_model(c))
}

/// The identifiers of some tool calls.
pub open spec fn call_ids(calls: Seq<turn::ToolCall>) -> Seq<Seq<char>> {
    calls.map_values(|c: turn::ToolCall| c.id@)
}

/// The turn is a tool result for one of `ids`.
pub open spec fn answers(t: Turn, ids: Seq<Seq<char>>) -> bool {
    match kind_tool_call_id(t.kind) {
        Some(id) => ids.contains(id),
        None => false,
    }
}

/// The turn is a tool invocation.
pub open spec fn invokes(t: Turn) -> bool {
    kind_tool_calls(t.kind) is Some
}

/// Scanning forward from `j`, the last turn that answers one of `ids`,
/// stopping at (and including) the next tool invocation; `end` if none.
pub open spec fn scan_end(turns: Seq<Turn>, ids: Seq<Seq<char>>, j: int, end: int) -> int
    decreases turns.len() - j,
{
    if j < 0 || j >= turns.len() {
        end
    } else {
        let e2 = if answers(turns[j], ids) { j } else { end };
        if invokes(turns[j]) {
            e2
        } else {
            scan_end(turns, ids, j + 1, e2)
        }
    }
}

/// The tool chain that starts at turn `i`, if any: a tool invocation with at
/// least one call, up to the last later result that answers one of its calls
/// before the next invocation.
pub open spec fn chain_at(turns: Seq<Turn>, i: int) -> Option<ChainModel> {
    match kind_tool_calls(turns[i].kind) {
        Some(calls) => if calls.len() > 0 {
            let ids = call_ids(calls);
            let end = scan_end(turns, ids, i + 1, i);
            if end > i {
                Some(ChainModel { start: i, end, ids })
            } else {
                None
            }
        } else {
            None
        },
        None => None,
    }
}

/// The tool chains that start among the first `n` turns, in order.
pub open spec fn chains_upto(turns: Seq<Turn>, n: int) -> Seq<ChainModel>
    decreases n,
{
    if n <= 0 {
        Seq::empty()
    } else {
        let prev = chains_upto(turns, n - 1);
        match chain_at(turns, n - 1) {
            Some(c) => prev.push(c),
            None => prev,
        }
    }
}

/// All tool chains of a conversation, in order.
pub open spec fn tool_chains(turns: Seq<Turn>) -> Seq<ChainModel> {
    chains_upto(turns, turns.len() as int)
}

/// Whether `s` is one of the strings of `v`.
pub fn contains_str(v: &Vec<String>, s: &str) -> (res: bool)
    ensures
        res == string_views(v@).contains(s@),
{
    let ghost views = string_views(v@);
    for i in 0..v.len()
        invariant
            views == string_views(v@),
            forall|k: int| 0 <= k < i ==> views[k] != s@,
    {
        if str_eq(v[i].as_str(), s) {
            assert(views[i as int] == s@);
            return true;
        }
    }
    false
}

fn ids_of_calls(calls: &Vec<turn::ToolCall>) -> (res: Vec<String>)
    ensures
        string_views(res@) == call_ids(calls@),
{
    let mut out: Vec<String> = Vec::new();
    for i in 0..calls.len()
        invariant
            out@.len() == i,
            string_views(out@) == call_ids(calls@.take(i as int)),
    {
        let ghost prev = out@;
        out.push(calls[i].id.clone());
        assert forall|k: int| 0 <= k < i + 1 implies #[trigger] string_views(out@)[k] == call_ids(calls@.take(i + 1))[k] by {
            if k < i {
                assert(string_views(prev)[k] == call_ids(calls@.take(i as int))[k]);
            }
        }
        assert(string_views(out@) =~= call_ids(calls@.take(i + 1)));
    }
    assert(calls@.take(calls.len() as int) == calls@);
    out
}

fn scan_chain_end(turns: &Vec<Turn>, ids: &Vec<String>, i: usize) -> (res: usize)
    requires
        i < turns.len(),
    ensures
        res as int == scan_end(turns@, string_views(ids@), i + 1, i as int),
        i <= res < turns.len(),
{
    let ghost idv = string_views(ids@);
    let n = turns.len();
    let mut end = i;
    let mut j = i + 1;
    let mut done = false;
    while j < n && !done
        invariant
            i < j <= n,
            n == turns.len(),
            idv == string_views(ids@),
            i <= end < j,
            done ==> end as int == scan_end(turns@, idv, i + 1, i as int),
            !done ==> scan_end(turns@, idv, i + 1, i as int) == scan_end(turns@, idv, j as int, end as int),
        decreases n - j + (if done { 0int } else { 1int }),
    {
        let t = &turns[j];
        if let Some(id) = t.tool_call_id() {
            if contains_str(ids, id) {
                end = j;
            }
        }
        if t.tool_calls().is_some() {
            done = true;
        } else {
            j += 1;
        }
    }
    end
}

/// Every tool chain of the conversation, in order of the invocations that
/// open them.
pub fn find_tool_chains(turns: &Vec<Turn>) -> (res: Vec<ToolChain>)
    ensures
        chain_models(res@) == tool_chains(turns@),
{
    let n = turns.len();
    let mut chains: Vec<ToolChain> = Vec::new();
    for i in 0..n
        invariant
            n == turns.len(),
            chain_models(chains@) == chains_upto(turns@, i as int),
    {
        let ghost before = chains@;
        match turns[i].tool_calls() {
            Some(tool_calls) => {
                if tool_calls.len() > 0 {
                    let ids = ids_of_calls(tool_calls);
                    let end = scan_chain_end(turns, &ids, i);
                    if end > i {
                        chains.push(ToolChain { start_index: i, end_index: end, tool_call_ids: ids });
                        assert(chain_models(chains@) =~= chain_models(before).push(chain_at(turns@, i as int)->0));
                    }
                }
            },
            None => {},
        }
    }
    chains
}

/// The last of `chains` that contains position `k`.
pub open spec fn containing(chains: Seq<ChainModel>, k: int) -> Option<ChainModel>
    decreases chains.len(),
{
    if chains.len() == 0 {
        None
    } else if chains.last().start <= k && k <= chains.last().end {
        Some(chains.last())
    } else {
        containing(chains.drop_last(), k)
    }
}

/// The largest of `base[lo..=hi]`, or 0 for an empty range.
pub open spec fn range_max(base: Seq<u64>, lo: int, hi: int) -> u64
    decreases hi - lo + 1,
{
    if hi < lo {
        0
    } else {
        let m = range_max(base, lo, hi - 1);
        if m >= base[hi] { m } else { base[hi] }
    }
}

/// The score of position `k` once every chain takes the largest score of its members.
pub open spec fn unified_score(chains: Seq<ChainModel>, base: Seq<u64>, k: int) -> u64 {
    match containing(chains, k) {
        Some(c) => range_max(base, c.start, c.end),
        None => base[k],
    }
}

/// The chain start recorded for position `k`.
pub open spec fn chain_start_of(chains: Seq<ChainModel>, k: int) -> Option<usize> {
    match containing(chains, k) {
        Some(c) => Some(c.start as usize),
        None => None,
    }
}

/// The score of a turn on its own: zero for a summary, else its weighted score.
pub open spec fn own_score(t: Turn, weighted: u64) -> u64 {
    if kind_is_summary(t.kind) { 0 } else { weighted }
}

/// The scores of the turns on their own, given their weighted scores.
pub open spec fn own_scores(turns: Seq<Turn>, weighted: Seq<u64>) -> Seq<u64> {
    Seq::new(turns.len(), |k: int| own_score(turns[k], weighted[k]))
}

/// The scores of a conversation whose turns have the weighted scores `base`.
pub open spec fn scored_model(turns: Seq<Turn>, base: Seq<u64>) -> Seq<ScoredMessage> {
    Seq::new(turns.len(), |k: int| ScoredMessage {
        index: k as usize,
        score: unified_score(tool_chains(turns), own_scores(turns, base), k),
        tool_chain_start: chain_start_of(tool_chains(turns), k),
    })
}

/// Scores turns for pruning. The weighted score of a single turn (age,
/// length and role) is computed in floating point by the caller and handed in
/// as an ordering key.
#[derive(Debug, Clone, Copy)]
pub struct TurnScorer {
    pub max_age_hours_bits: u64,
}

impl TurnScorer {
    /// A scorer for the limits of `config`.
    pub fn new(config: &PruningConfig) -> (res: Self)
        ensures
            res.max_age_hours_bits == config.max_age_hours_bits,
    {
        TurnScorer { max_age_hours_bits: config.max_age_hours_bits }
    }

    /// The score of turn `index`: zero for a summary, else `weighted`.
    pub fn score(&self, turn: &Turn, index: usize, weighted: u64) -> (res: ScoredMessage)
        ensures
            res.index == index,
            res.score == if kind_is_summary(turn.kind) { 0 } else { weighted },
            res.tool_chain_start is None,
    {
        if turn.is_summary() {
            ScoredMessage { index, score: 0, tool_chain_start: None }
        } else {
            ScoredMessage { index, score: weighted, tool_chain_start: None }
        }
    }

    /// The scores of a whole conversation, given the weighted score of each
    /// turn: position `i` scores as `score` gives it (zero for a summary, else
    /// `base_scores[i]`) unless it belongs to a tool chain, in which case every
    /// member of the chain gets the largest such score in the chain and records
    /// where the chain starts.
    pub fn score_all(&self, turns: &Vec<Turn>, base_scores: &Vec<u64>) -> (res: Vec<ScoredMessage>)
        requires
            base_scores.len() == turns.len(),
        ensures
            res.len() == turns.len(),
            forall|k: int| 0 <= k < res.len() ==> {
                &&& (#[trigger] res@[k]).index == k
                &&& res@[k].score == unified_score(tool_chains(turns@), own_scores(turns@, base_scores@), k)
                &&& res@[k].tool_chain_start == chain_start_of(tool_chains(turns@), k)
            },
            res@ == scored_model(turns@, base_scores@),
    {
        let chains = find_tool_chains(turns);
        let ghost cm = chain_models(chains@);
        let n = turns.len();
        proof {
            lemma_chains_in_bounds(turns@, n as int);
        }
        let ghost own = own_scores(turns@, base_scores@);
        let mut scored: Vec<ScoredMessage> = Vec::new();
        let mut own_vec: Vec<u64> = Vec::new();
        for i in 0..n
            invariant
                n == turns.len(),
                n == base_scores.len(),
                cm == chain_models(chains@),
                cm == tool_chains(turns@),
                own == own_scores(turns@, base_scores@),
                scored.len() == i,
                own_vec.len() == i,
                forall|k: int| 0 <= k < i ==> #[trigger] own_vec@[k] == own[k],
                forall|k: int| 0 <= k < i ==> {
                    &&& (#[trigger] scored@[k]).index == k
                    &&& scored@[k].score == own[k]
                    &&& scored@[k].tool_chain_start == chain_start_of(cm, k)
                },
        {
            let mut start: Option<usize> = None;
            for c in 0..chains.len()
                invariant
                    cm == chain_models(chains@),
                    start == chain_start_of(cm.take(c as int), i as int),
            {
                let ch = &chains[c];
                assert(cm.take(c + 1).drop_last() =~= cm.take(c as int));
                assert(cm.take(c + 1).last() == chain_model(chains@[c as int]));
                if ch.start_index <= i && i <= ch.end_index {
                    start = Some(ch.start_index);
                }
            }
            assert(cm.take(chains.len() as int) =~= cm);
            let alone = self.score(&turns[i], i, base_scores[i]);
            own_vec.push(alone.score);
            scored.push(ScoredMessage { index: i, score: alone.score, tool_chain_start: start });
        }
        assert(own_vec@ =~= own);
        for c in 0..chains.len()
            invariant
                n == turns.len(),
                n == base_scores.len(),
                cm == chain_models(chains@),
                cm == tool_chains(turns@),
                forall|q: int| 0 <= q < cm.len() ==> 0 <= #[trigger] cm[q].start <= cm[q].end < n,
                own_vec@ == own,
                own.len() == n,
                scored.len() == n,
                forall|k: int| 0 <= k < n ==> {
                    &&& (#[trigger] scored@[k]).index == k
                    &&& scored@[k].score == unified_score(cm.take(c as int), own, k)
                    &&& scored@[k].tool_chain_start == chain_start_of(cm, k)
                },
        {
            let lo = chains[c].start_index;
            let hi = chains[c].end_index;
            assert(cm[c as int].start == lo && cm[c as int].end == hi);
            let mut m: u64 = 0;
            let mut k = lo;
            while k <= hi
                invariant
                    lo <= k <= hi + 1,
                    hi < n,
                    n == own_vec.len(),
                    m == range_max(own_vec@, lo as int, k - 1),
                decreases hi + 1 - k,
            {
                if own_vec[k] > m {
                    m = own_vec[k];
                }
                k += 1;
            }
            let ghost prev = scored@;
            let mut k = lo;
            while k <= hi
                invariant
                    lo <= k <= hi + 1,
                    hi < n,
                    scored.len() == n,
                    forall|q: int| 0 <= q < n ==> {
                        &&& (#[trigger] scored@[q]).index == prev[q].index
                        &&& scored@[q].tool_chain_start == prev[q].tool_chain_start
                        &&& scored@[q].score == if lo <= q < k { m } else { prev[q].score }
                    },
                decreases hi + 1 - k,
            {
                let mut sm = scored[k];
                sm.score = m;
                scored.set(k, sm);
                k += 1;
            }
            assert(cm.take(c + 1).drop_last() =~= cm.take(c as int));
            assert(cm.take(c + 1).last() == cm[c as int]);
        }
        assert(cm.take(chains.len() as int) =~= cm);
        assert(scored@ =~= scored_model(turns@, base_scores@));
        scored
    }

    /// The prune candidates: among the messages
    /// with a positive score, by decreasing score (stable), at most `count`
    /// indices, skipping any message whose tool chain already gave one.
    pub fn select_candidates(&self, scored: &Vec<ScoredMessage>, count: usize) -> (res: Vec<usize>)
        ensures
            res@ == selection(scored@, count as nat),
    {
        let mut sorted: Vec<ScoredMessage> = Vec::new();
        for i in 0..scored.len()
            invariant
                sorted@ == sort_desc(positive(scored@.take(i as int))),
        {
            let m = scored[i];
            let ghost t = scored@.take(i + 1);
            assert(t.drop_last() =~= scored@.take(i as int));
            assert(t.last() == m);
            if m.score > 0 {
                insert_desc(&mut sorted, m);
                assert(positive(t).drop_last() =~= positive(scored@.take(i as int)));
            }
        }
        assert(scored@.take(scored.len() as int) =~= scored@);
        let ghost order = sorted@;
        let mut seen: Vec<usize> = Vec::new();
        let mut out: Vec<usize> = Vec::new();
        let mut i: usize = 0;
        assert(order.skip(0) =~= order);
        assert(seen@.to_set() =~= Set::<usize>::empty());
        while i < sorted.len() && out.len() < count
            invariant
                order == sorted@,
                i <= sorted.len(),
                greedy(order, count as nat, Set::empty(), Seq::empty())
                    == greedy(order.skip(i as int), count as nat, seen@.to_set(), out@),
            decreases sorted.len() - i,
        {
            let m = sorted[i];
            let ghost rest = order.skip(i as int);
            assert(rest[0] == m);
            assert(rest.drop_first() =~= order.skip(i + 1));
            match m.tool_chain_start {
                Some(c) => {
                    let mut found = false;
                    for k in 0..seen.len()
                        invariant
                            found <==> exists|j: int| 0 <= j < k && seen@[j] == c,
                    {
                        if seen[k] == c {
                            found = true;
                        }
                    }
                    if !found {
                        let ghost prev_seen = seen@;
                        seen.push(c);
                        assert forall|x: usize| seen@.contains(x) <==> (prev_seen.contains(x) || x == c) by {
                            if seen@.contains(x) {
                                let j = choose|j: int| 0 <= j < seen@.len() && seen@[j] == x;
                                if j < prev_seen.len() {
                                    assert(prev_seen[j] == x);
                                }
                            }
                            if prev_seen.contains(x) {
                                let j = choose|j: int| 0 <= j < prev_seen.len() && prev_seen[j] == x;
                                assert(seen@[j] == x);
                            }
                            if x == c {
                                assert(seen@[prev_seen.len() as int] == c);
                            }
                        }
                        assert(seen@.to_set() =~= prev_seen.to_set().insert(c));
                        out.push(m.index);
                    }
                },
                None => {
                    out.push(m.index);
                },
            }
            i += 1;
        }
        out
    }
}

/// Scanning from `j`, no tool invocation lies between `j` and the end found.
proof fn lemma_scan_end(turns: Seq<Turn>, ids: Seq<Seq<char>>, j: int, end: int)
    requires
        0 <= j,
        end < j,
    ensures
        end <= scan_end(turns, ids, j, end),
        scan_end(turns, ids, j, end) < turns.len() || scan_end(turns, ids, j, end) == end,
        forall|k: int| j <= k <= scan_end(turns, ids, j, end) ==> !invokes(#[trigger] turns[k]),
        scan_end(turns, ids, j, end) == end || answers(turns[scan_end(turns, ids, j, end)], ids),
    decreases turns.len() - j,
{
    if j < turns.len() {
        let e2 = if answers(turns[j], ids) { j } else { end };
        if invokes(turns[j]) {
            assert(kind_tool_call_id(turns[j].kind) is None);
        } else {
            lemma_scan_end(turns, ids, j + 1, e2);
        }
    }
}

/// No tool invocation among turns `a` up to (not including) `b`.
pub open spec fn no_invocation(turns: Seq<Turn>, a: int, b: int) -> bool {
    forall|m: int| a <= m < b ==> !invokes(#[trigger] turns[m])
}

/// The end a scan finds is the last answer before the next tool invocation.
proof fn lemma_scan_end_last(turns: Seq<Turn>, ids: Seq<Seq<char>>, j: int, end: int)
    requires
        0 <= j,
        end < j,
    ensures
        forall|k: int| j <= k < turns.len() && #[trigger] answers(turns[k], ids) && no_invocation(turns, j, k)
            ==> k <= scan_end(turns, ids, j, end),
    decreases turns.len() - j,
{
    if j < turns.len() {
        let e2 = if answers(turns[j], ids) { j } else { end };
        if !invokes(turns[j]) {
            lemma_scan_end_last(turns, ids, j + 1, e2);
            lemma_scan_end(turns, ids, j + 1, e2);
            assert forall|k: int| j <= k < turns.len() && #[trigger] answers(turns[k], ids) && no_invocation(turns, j, k)
                implies k <= scan_end(turns, ids, j, end) by {
                if k > j {
                    assert(no_invocation(turns, j + 1, k));
                }
            }
        } else {
            assert forall|k: int| j <= k < turns.len() && #[trigger] answers(turns[k], ids) && no_invocation(turns, j, k)
                implies k <= scan_end(turns, ids, j, end) by {
                if k > j {
                    assert(!invokes(turns[j]));
                }
            }
        }
    }
}

/// Which turns form a tool chain, said directly: turn `i` starts one exactly
/// when it invokes at least one tool and a later turn answers one of its calls
/// before the next tool invocation; the chain then runs from `i` to the last
/// such answer, with no tool invocation inside it.
pub proof fn lemma_chain_at_closed(turns: Seq<Turn>, i: int)
    requires
        0 <= i < turns.len(),
    ensures
        (chain_at(turns, i) is Some) <==> (kind_tool_calls(turns[i].kind) matches Some(calls) && calls.len() > 0
            && exists|k: int| i < k < turns.len() && #[trigger] answers(turns[k], call_ids(calls))
                && no_invocation(turns, i + 1, k)),
        chain_at(turns, i) matches Some(c) ==> {
            &&& c.start == i
            &&& c.ids == call_ids(kind_tool_calls(turns[i].kind)->0)
            &&& i < c.end < turns.len()
            &&& answers(turns[c.end], c.ids)
            &&& no_invocation(turns, i + 1, c.end + 1)
            &&& forall|k: int| c.end < k < turns.len() && no_invocation(turns, i + 1, k)
                ==> !(#[trigger] answers(turns[k], c.ids))
        },
{
    match kind_tool_calls(turns[i].kind) {
        Some(calls) => {
            if calls.len() > 0 {
                let ids = call_ids(calls);
                lemma_scan_end(turns, ids, i + 1, i);
                lemma_scan_end_last(turns, ids, i + 1, i);
                let end = scan_end(turns, ids, i + 1, i);
                if end > i {
                    assert(no_invocation(turns, i + 1, end + 1));
                    assert(no_invocation(turns, i + 1, end));
                }
            }
        },
        None => {},
    }
}

/// The tool chains of a conversation are exactly the chains that start at
/// its turns.
pub proof fn lemma_tool_chains_are_chain_starts(turns: Seq<Turn>, c: ChainModel)
    ensures
        tool_chains(turns).contains(c) <==> exists|i: int| 0 <= i < turns.len() && #[trigger] chain_at(turns, i) == Some(c),
{
    lemma_chains_upto_members(turns, turns.len() as int, c);
}

proof fn lemma_chains_upto_members(turns: Seq<Turn>, n: int, c: ChainModel)
    requires
        0 <= n,
    ensures
        chains_upto(turns, n).contains(c) <==> exists|i: int| 0 <= i < n && #[trigger] chain_at(turns, i) == Some(c),
    decreases n,
{
    if n > 0 {
        lemma_chains_upto_members(turns, n - 1, c);
        let prev = chains_upto(turns, n - 1);
        let all = chains_upto(turns, n);
        match chain_at(turns, n - 1) {
            Some(c2) => {
                assert(all == prev.push(c2));
                if all.contains(c) {
                    let q = choose|q: int| 0 <= q < all.len() && all[q] == c;
                    if q < prev.len() {
                        assert(prev[q] == c);
                    } else {
                        assert(chain_at(turns, n - 1) == Some(c));
                    }
                }
                if exists|i: int| 0 <= i < n && #[trigger] chain_at(turns, i) == Some(c) {
                    let i = choose|i: int| 0 <= i < n && #[trigger] chain_at(turns, i) == Some(c);
                    if i < n - 1 {
                        let q = choose|q: int| 0 <= q < prev.len() && prev[q] == c;
                        assert(all[q] == c);
                    } else {
                        assert(all[all.len() - 1] == c);
                    }
                }
            },
            None => {
                if exists|i: int| 0 <= i < n && #[trigger] chain_at(turns, i) == Some(c) {
                    let i = choose|i: int| 0 <= i < n && #[trigger] chain_at(turns, i) == Some(c);
                    assert(i < n - 1);
                }
            },
        }
    }
}

/// Every chain starts at a tool invocation and ends at a later result that
/// answers it, within the conversation.
proof fn lemma_chain_at(turns: Seq<Turn>, i: int)
    requires
        0 <= i < turns.len(),
        chain_at(turns, i) is Some,
    ensures
        ({
            let c = chain_at(turns, i)->0;
            &&& c.start == i
            &&& i < c.end < turns.len()
            &&& invokes(turns[i])
            &&& answers(turns[c.end], c.ids)
            &&& forall|k: int| i < k <= c.end ==> !invokes(#[trigger] turns[k])
        }),
{
    let calls = kind_tool_calls(turns[i].kind)->0;
    lemma_scan_end(turns, call_ids(calls), i + 1, i);
}

/// Chains among the first `n` turns lie within those bounds.
proof fn lemma_chains_in_bounds(turns: Seq<Turn>, n: int)
    requires
        0 <= n <= turns.len(),
    ensures
        forall|q: int| 0 <= q < chains_upto(turns, n).len() ==> {
            &&& 0 <= #[trigger] chains_upto(turns, n)[q].start
            &&& chains_upto(turns, n)[q].start < chains_upto(turns, n)[q].end
            &&& chains_upto(turns, n)[q].end < turns.len()
            &&& chains_upto(turns, n)[q].start < n
        },
    decreases n,
{
    if n > 0 {
        lemma_chains_in_bounds(turns, n - 1);
        let prev = chains_upto(turns, n - 1);
        if chain_at(turns, n - 1) is Some {
            lemma_chain_at(turns, n - 1);
            let all = chains_upto(turns, n);
            assert(all == prev.push(chain_at(turns, n - 1)->0));
            assert forall|q: int| 0 <= q < all.len() implies {
                &&& 0 <= #[trigger] all[q].start
                &&& all[q].start < all[q].end
                &&& all[q].end < turns.len()
                &&& all[q].start < n
            } by {
                if q < prev.len() {
                    assert(all[q] == prev[q]);
                }
            }
        }
    }
}

/// The tool chains of a conversation are ordered and do not overlap: each one
/// starts at a tool invocation and ends, later, at a tool result that answers
/// one of its calls, and each ends before the next one starts.
pub proof fn lemma_tool_chains_disjoint(turns: Seq<Turn>)
    ensures
        forall|q: int| 0 <= q < tool_chains(turns).len() ==> {
            &&& 0 <= #[trigger] tool_chains(turns)[q].start
            &&& tool_chains(turns)[q].start < tool_chains(turns)[q].end
            &&& tool_chains(turns)[q].end < turns.len()
            &&& invokes(turns[tool_chains(turns)[q].start])
            &&& answers(turns[tool_chains(turns)[q].end], tool_chains(turns)[q].ids)
        },
        forall|q1: int, q2: int| 0 <= q1 < q2 < tool_chains(turns).len() ==>
            #[trigger] tool_chains(turns)[q1].end < #[trigger] tool_chains(turns)[q2].start,
{
    lemma_chains_upto_disjoint(turns, turns.len() as int);
}

proof fn lemma_chains_upto_disjoint(turns: Seq<Turn>, n: int)
    requires
        0 <= n <= turns.len(),
    ensures
        forall|q: int| 0 <= q < chains_upto(turns, n).len() ==> {
            &&& 0 <= #[trigger] chains_upto(turns, n)[q].start
            &&& chains_upto(turns, n)[q].start < chains_upto(turns, n)[q].end
            &&& chains_upto(turns, n)[q].end < turns.len()
            &&& chains_upto(turns, n)[q].start < n
            &&& invokes(turns[chains_upto(turns, n)[q].start])
            &&& answers(turns[chains_upto(turns, n)[q].end], chains_upto(turns, n)[q].ids)
            &&& forall|k: int| chains_upto(turns, n)[q].start < k <= chains_upto(turns, n)[q].end
                ==> !invokes(#[trigger] turns[k])
        },
        forall|q1: int, q2: int| 0 <= q1 < q2 < chains_upto(turns, n).len() ==>
            #[trigger] chains_upto(turns, n)[q1].end < #[trigger] chains_upto(turns, n)[q2].start,
    decreases n,
{
    if n > 0 {
        lemma_chains_upto_disjoint(turns, n - 1);
        let prev = chains_upto(turns, n - 1);
        if chain_at(turns, n - 1) is Some {
            lemma_chain_at(turns, n - 1);
            let c = chain_at(turns, n - 1)->0;
            let all = chains_upto(turns, n);
            assert(all == prev.push(c));
            assert forall|q: int| 0 <= q < prev.len() implies #[trigger] prev[q].end < c.start by {
                let pq = prev[q];
                assert(pq.start < n - 1);
                assert(forall|k: int| pq.start < k <= pq.end ==> !invokes(#[trigger] turns[k]));
                if pq.end >= c.start {
                    assert(!invokes(turns[n - 1]));
                }
            }
            assert forall|q: int| 0 <= q < all.len() implies {
                &&& 0 <= #[trigger] all[q].start
                &&& all[q].start < all[q].end
                &&& all[q].end < turns.len()
                &&& all[q].start < n
                &&& invokes(turns[all[q].start])
                &&& answers(turns[all[q].end], all[q].ids)
                &&& forall|k: int| all[q].start < k <= all[q].end ==> !invokes(#[trigger] turns[k])
            } by {
                if q < prev.len() {
                    assert(all[q] == prev[q]);
                }
            }
            assert forall|q1: int, q2: int| 0 <= q1 < q2 < all.len() implies
                #[trigger] all[q1].end < #[trigger] all[q2].start by {
                if q2 < prev.len() {
                    assert(all[q1] == prev[q1] && all[q2] == prev[q2]);
                } else {
                    assert(all[q1] == prev[q1]);
                }
            }
        }
    }
}

proof fn lemma_containing_unique(chains: Seq<ChainModel>, q: int, k: int)
    requires
        0 <= q < chains.len(),
        chains[q].start <= k <= chains[q].end,
        forall|q1: int, q2: int| 0 <= q1 < q2 < chains.len() ==>
            #[trigger] chains[q1].end < #[trigger] chains[q2].start,
        forall|p: int| 0 <= p < chains.len() ==> #[trigger] chains[p].start <= chains[p].end,
    ensures
        containing(chains, k) == Some(chains[q]),
    decreases chains.len(),
{
    if q < chains.len() - 1 {
        let last = chains.len() - 1;
        assert(chains[q].end < chains[last].start);
        let init = chains.drop_last();
        assert forall|q1: int, q2: int| 0 <= q1 < q2 < init.len() implies
            #[trigger] init[q1].end < #[trigger] init[q2].start by {
            assert(init[q1] == chains[q1] && init[q2] == chains[q2]);
        }
        assert forall|p: int| 0 <= p < init.len() implies #[trigger] init[p].start <= init[p].end by {
            assert(init[p] == chains[p]);
        }
        lemma_containing_unique(init, q, k);
    }
}

/// Every turn of a tool chain gets the same score once scores are unified:
/// the largest score among the chain's turns.
pub proof fn lemma_chain_shares_score(turns: Seq<Turn>, base: Seq<u64>, q: int, k: int)
    requires
        0 <= q < tool_chains(turns).len(),
        tool_chains(turns)[q].start <= k <= tool_chains(turns)[q].end,
    ensures
        unified_score(tool_chains(turns), base, k)
            == range_max(base, tool_chains(turns)[q].start, tool_chains(turns)[q].end),
        chain_start_of(tool_chains(turns), k) == Some(tool_chains(turns)[q].start as usize),
{
    lemma_tool_chains_disjoint(turns);
    let chains = tool_chains(turns);
    assert forall|p: int| 0 <= p < chains.len() implies #[trigger] chains[p].start <= chains[p].end by {}
    lemma_containing_unique(chains, q, k);
}

/// `x` placed after every element of `s` whose score is at least its own
/// (insertion into a list kept in decreasing score order; equal scores keep
/// their order of arrival).
pub open spec fn ins_desc(s: Seq<ScoredMessage>, x: ScoredMessage) -> Seq<ScoredMessage>
    decreases s.len(),
{
    if s.len() == 0 {
        seq![x]
    } else if s.last().score >= x.score {
        s.push(x)
    } else {
        ins_desc(s.drop_last(), x).push(s.last())
    }
}

/// Stable sort by decreasing score.
pub open spec fn sort_desc(s: Seq<ScoredMessage>) -> Seq<ScoredMessage>
    decreases s.len(),
{
    if s.len() == 0 {
        s
    } else {
        ins_desc(sort_desc(s.drop_last()), s.last())
    }
}

/// The scored messages with a positive score, in order.
pub open spec fn positive(s: Seq<ScoredMessage>) -> Seq<ScoredMessage>
    decreases s.len(),
{
    if s.len() == 0 {
        s
    } else {
        let p = positive(s.drop_last());
        if s.last().score > 0 { p.push(s.last()) } else { p }
    }
}

/// Walk `order`, taking indices until `count` are taken, and taking at most
/// one message per tool chain.
pub open spec fn greedy(order: Seq<ScoredMessage>, count: nat, seen: Set<usize>, acc: Seq<usize>) -> Seq<usize>
    decreases order.len(),
{
    if order.len() == 0 || acc.len() >= count {
        acc
    } else {
        let m = order[0];
        let rest = order.drop_first();
        match m.tool_chain_start {
            Some(c) => if seen.contains(c) {
                greedy(rest, count, seen, acc)
            } else {
                greedy(rest, count, seen.insert(c), acc.push(m.index))
            },
            None => greedy(rest, count, seen, acc.push(m.index)),
        }
    }
}

/// The prune candidates: the positive-score messages by decreasing score
/// (ties in order of position), at most `count` of them, one per tool chain.
pub open spec fn selection(scored: Seq<ScoredMessage>, count: nat) -> Seq<usize> {
    greedy(sort_desc(positive(scored)), count, Set::empty(), Seq::empty())
}

proof fn lemma_ins_desc_split(s: Seq<ScoredMessage>, x: ScoredMessage, j: int)
    requires
        0 <= j <= s.len(),
        forall|k: int| j <= k < s.len() ==> (#[trigger] s[k]).score < x.score,
        j == 0 || s[j - 1].score >= x.score,
    ensures
        ins_desc(s, x) == s.take(j).push(x) + s.skip(j),
    decreases s.len(),
{
    if s.len() == 0 {
        assert(s.take(j).push(x) + s.skip(j) =~= seq![x]);
    } else if s.last().score >= x.score {
        assert(j == s.len());
        assert(s.take(j).push(x) + s.skip(j) =~= s.push(x));
    } else {
        let init = s.drop_last();
        assert(j < s.len());
        assert forall|k: int| j <= k < init.len() implies (#[trigger] init[k]).score < x.score by {
            assert(init[k] == s[k]);
        }
        lemma_ins_desc_split(init, x, j);
        assert(init.take(j).push(x) + init.skip(j) + seq![s.last()] =~= s.take(j).push(x) + s.skip(j));
    }
}

fn insert_desc(v: &mut Vec<ScoredMessage>, x: ScoredMessage)
    ensures
        final(v)@ == ins_desc(old(v)@, x),
{
    let mut j = v.len();
    while j > 0 && v[j - 1].score < x.score
        invariant
            j <= v.len(),
            v@ == old(v)@,
            forall|k: int| j <= k < v.len() ==> (#[trigger] v@[k]).score < x.score,
        decreases j,
    {
        j -= 1;
    }
    proof {
        lemma_ins_desc_split(v@, x, j as int);
    }
    v.insert(j, x);
    assert(v@ =~= old(v)@.take(j as int).push(x) + old(v)@.skip(j as int));
}


/// The messages that `greedy` takes, in order.
pub open spec fn pick(order: Seq<ScoredMessage>, count: nat, seen: Set<usize>, acc: Seq<ScoredMessage>) -> Seq<ScoredMessage>
    decreases order.len(),
{
    if order.len() == 0 || acc.len() >= count {
        acc
    } else {
        let m = order[0];
        let rest = order.drop_first();
        match m.tool_chain_start {
            Some(c) => if seen.contains(c) {
                pick(rest, count, seen, acc)
            } else {
                pick(rest, count, seen.insert(c), acc.push(m))
            },
            None => pick(rest, count, seen, acc.push(m)),
        }
    }
}

/// The indices of some scored messages.
pub open spec fn indices(s: Seq<ScoredMessage>) -> Seq<usize> {
    s.map_values(|m: ScoredMessage| m.index)
}

/// No two of `s` name the same tool chain.
pub open spec fn distinct_chains(s: Seq<ScoredMessage>) -> bool {
    forall|k1: int, k2: int| 0 <= k1 < k2 < s.len() && (#[trigger] s[k1]).tool_chain_start is Some
        ==> s[k1].tool_chain_start != (#[trigger] s[k2]).tool_chain_start
}

proof fn lemma_pick(order: Seq<ScoredMessage>, count: nat, seen: Set<usize>, acc: Seq<ScoredMessage>, pool: Seq<ScoredMessage>)
    requires
        acc.len() <= count,
        distinct_chains(acc),
        forall|k: int| 0 <= k < acc.len() && (#[trigger] acc[k]).tool_chain_start is Some
            ==> seen.contains(acc[k].tool_chain_start->0),
        forall|k: int| 0 <= k < acc.len() ==> pool.contains(#[trigger] acc[k]) && acc[k].score > 0,
        forall|k: int| 0 <= k < order.len() ==> pool.contains(#[trigger] order[k]) && order[k].score > 0,
    ensures
        greedy(order, count, seen, indices(acc)) == indices(pick(order, count, seen, acc)),
        pick(order, count, seen, acc).len() <= count,
        distinct_chains(pick(order, count, seen, acc)),
        forall|k: int| 0 <= k < pick(order, count, seen, acc).len() ==>
            pool.contains(#[trigger] pick(order, count, seen, acc)[k])
            && pick(order, count, seen, acc)[k].score > 0,
    decreases order.len(),
{
    if order.len() == 0 || acc.len() >= count {
    } else {
        let m = order[0];
        let rest = order.drop_first();
        assert(pool.contains(order[0]));
        assert forall|k: int| 0 <= k < rest.len() implies pool.contains(#[trigger] rest[k]) && rest[k].score > 0 by {
            assert(rest[k] == order[k + 1]);
        }
        assert(indices(acc.push(m)) =~= indices(acc).push(m.index));
        let acc2 = acc.push(m);
        assert forall|k: int| 0 <= k < acc2.len() implies pool.contains(#[trigger] acc2[k]) && acc2[k].score > 0 by {
            if k < acc.len() { assert(acc2[k] == acc[k]); }
        }
        match m.tool_chain_start {
            Some(c) => if seen.contains(c) {
                lemma_pick(rest, count, seen, acc, pool);
            } else {
                let seen2 = seen.insert(c);
                assert forall|k1: int, k2: int| 0 <= k1 < k2 < acc2.len() && (#[trigger] acc2[k1]).tool_chain_start is Some
                    implies acc2[k1].tool_chain_start != (#[trigger] acc2[k2]).tool_chain_start by {
                    assert(acc2[k1] == acc[k1]);
                    if k2 < acc.len() { assert(acc2[k2] == acc[k2]); }
                }
                assert forall|k: int| 0 <= k < acc2.len() && (#[trigger] acc2[k]).tool_chain_start is Some
                    implies seen2.contains(acc2[k].tool_chain_start->0) by {
                    if k < acc.len() { assert(acc2[k] == acc[k]); }
                }
                lemma_pick(rest, count, seen2, acc2, pool);
            },
            None => {
                assert forall|k1: int, k2: int| 0 <= k1 < k2 < acc2.len() && (#[trigger] acc2[k1]).tool_chain_start is Some
                    implies acc2[k1].tool_chain_start != (#[trigger] acc2[k2]).tool_chain_start by {
                    assert(acc2[k1] == acc[k1]);
                    if k2 < acc.len() { assert(acc2[k2] == acc[k2]); }
                }
                assert forall|k: int| 0 <= k < acc2.len() && (#[trigger] acc2[k]).tool_chain_start is Some
                    implies seen.contains(acc2[k].tool_chain_start->0) by {
                    if k < acc.len() { assert(acc2[k] == acc[k]); }
                }
                lemma_pick(rest, count, seen, acc2, pool);
            },
        }
    }
}

proof fn lemma_ins_desc_members(s: Seq<ScoredMessage>, x: ScoredMessage)
    ensures
        forall|k: int| 0 <= k < ins_desc(s, x).len() ==>
            (#[trigger] ins_desc(s, x)[k] == x || s.contains(ins_desc(s, x)[k])),
    decreases s.len(),
{
    if s.len() > 0 && s.last().score < x.score {
        let init = s.drop_last();
        lemma_ins_desc_members(init, x);
        let r = ins_desc(s, x);
        assert forall|k: int| 0 <= k < r.len() implies (#[trigger] r[k] == x || s.contains(r[k])) by {
            if k < r.len() - 1 {
                assert(r[k] == ins_desc(init, x)[k]);
                if init.contains(r[k]) {
                    let j = choose|j: int| 0 <= j < init.len() && init[j] == r[k];
                    assert(s[j] == r[k]);
                }
            } else {
                assert(s[s.len() - 1] == r[k]);
            }
        }
    } else if s.len() > 0 {
        let r = ins_desc(s, x);
        assert forall|k: int| 0 <= k < r.len() implies (#[trigger] r[k] == x || s.contains(r[k])) by {
            if k < s.len() { assert(s[k] == r[k]); }
        }
    }
}

proof fn lemma_sort_positive_members(s: Seq<ScoredMessage>)
    ensures
        forall|k: int| 0 <= k < sort_desc(positive(s)).len() ==>
            s.contains(#[trigger] sort_desc(positive(s))[k]) && sort_desc(positive(s))[k].score > 0,
    decreases s.len(),
{
    if s.len() > 0 {
        let init = s.drop_last();
        lemma_sort_positive_members(init);
        let p = positive(s);
        assert forall|k: int| 0 <= k < init.len() implies s.contains(#[trigger] init[k]) by {
            assert(s[k] == init[k]);
        }
        if s.last().score > 0 {
            let p0 = positive(init);
            assert(p.drop_last() =~= p0);
            lemma_ins_desc_members(sort_desc(p0), s.last());
            assert(s[s.len() - 1] == s.last());
        }
    }
}

/// The prune candidates are at most `count` messages with a positive score,
/// taken from the scored messages, with no two from the same tool chain.
pub proof fn lemma_selection_sound(scored: Seq<ScoredMessage>, count: nat)
    ensures
        ({
            let picked = pick(sort_desc(positive(scored)), count, Set::empty(), Seq::empty());
            &&& selection(scored, count) == indices(picked)
            &&& picked.len() <= count
            &&& distinct_chains(picked)
            &&& forall|k: int| 0 <= k < picked.len() ==>
                scored.contains(#[trigger] picked[k]) && picked[k].score > 0
        }),
{
    lemma_sort_positive_members(scored);
    assert(indices(Seq::<ScoredMessage>::empty()) =~= Seq::<usize>::empty());
    lemma_pick(sort_desc(positive(scored)), count, Set::empty(), Seq::empty(), scored);
}

/// A summary turn that belongs to no tool chain is never a prune candidate,
/// whatever the weighted scores and however many candidates are wanted.
pub proof fn lemma_summary_never_candidate(turns: Seq<Turn>, base: Seq<u64>, count: nat, k: int)
    requires
        0 <= k < turns.len(),
        turns.len() <= usize::MAX,
        kind_is_summary(turns[k].kind),
        containing(tool_chains(turns), k) is None,
    ensures
        !selection(scored_model(turns, base), count).contains(k as usize),
{
    let scored = scored_model(turns, base);
    lemma_selection_sound(scored, count);
    let picked = pick(sort_desc(positive(scored)), count, Set::empty(), Seq::empty());
    if selection(scored, count).contains(k as usize) {
        let j = choose|j: int| 0 <= j < indices(picked).len() && indices(picked)[j] == k as usize;
        assert(scored.contains(picked[j]));
        let p = choose|p: int| 0 <= p < scored.len() && scored[p] == picked[j];
        assert(scored[p].index == p as usize);
        assert(p == k);
        assert(own_scores(turns, base)[k] == 0);
        assert(scored[k].score == 0);
    }
}

/// Scores that never rise along the sequence.
pub open spec fn non_increasing(s: Seq<ScoredMessage>) -> bool {
    forall|a: int, b: int| 0 <= a < b < s.len() ==> (#[trigger] s[a]).score >= (#[trigger] s[b]).score
}

proof fn lemma_ins_desc_ordered(s: Seq<ScoredMessage>, x: ScoredMessage)
    requires
        non_increasing(s),
    ensures
        non_increasing(ins_desc(s, x)),
    decreases s.len(),
{
    if s.len() == 0 {
    } else if s.last().score >= x.score {
        let r = s.push(x);
        assert forall|a: int, b: int| 0 <= a < b < r.len() implies (#[trigger] r[a]).score >= (#[trigger] r[b]).score by {
            if b < s.len() {
                assert(r[a] == s[a] && r[b] == s[b]);
            } else {
                assert(r[a] == s[a]);
                if a < s.len() - 1 {
                    assert(s[a].score >= s[s.len() - 1].score);
                }
            }
        }
    } else {
        let init = s.drop_last();
        assert forall|a: int, b: int| 0 <= a < b < init.len() implies (#[trigger] init[a]).score >= (#[trigger] init[b]).score by {
            assert(init[a] == s[a] && init[b] == s[b]);
        }
        lemma_ins_desc_ordered(init, x);
        lemma_ins_desc_members(init, x);
        let t = ins_desc(init, x);
        let r = t.push(s.last());
        assert forall|a: int, b: int| 0 <= a < b < r.len() implies (#[trigger] r[a]).score >= (#[trigger] r[b]).score by {
            if b < t.len() {
                assert(r[a] == t[a] && r[b] == t[b]);
            } else {
                assert(r[a] == t[a]);
                assert(t[a] == x || init.contains(t[a]));
                if init.contains(t[a]) {
                    let q = choose|q: int| 0 <= q < init.len() && init[q] == t[a];
                    assert(s[q] == init[q]);
                    assert(s[q].score >= s[s.len() - 1].score);
                }
            }
        }
    }
}

proof fn lemma_sort_desc_ordered(s: Seq<ScoredMessage>)
    ensures
        non_increasing(sort_desc(s)),
    decreases s.len(),
{
    if s.len() > 0 {
        lemma_sort_desc_ordered(s.drop_last());
        lemma_ins_desc_ordered(sort_desc(s.drop_last()), s.last());
    }
}

proof fn lemma_pick_ordered(order: Seq<ScoredMessage>, count: nat, seen: Set<usize>, acc: Seq<ScoredMessage>)
    requires
        non_increasing(order),
        non_increasing(acc),
        forall|a: int, b: int| 0 <= a < acc.len() && 0 <= b < order.len() ==> (#[trigger] acc[a]).score >= (#[trigger] order[b]).score,
    ensures
        non_increasing(pick(order, count, seen, acc)),
    decreases order.len(),
{
    if order.len() > 0 && acc.len() < count {
        let m = order[0];
        let rest = order.drop_first();
        assert forall|a: int, b: int| 0 <= a < b < rest.len() implies (#[trigger] rest[a]).score >= (#[trigger] rest[b]).score by {
            assert(rest[a] == order[a + 1] && rest[b] == order[b + 1]);
        }
        assert forall|a: int, b: int| 0 <= a < acc.len() && 0 <= b < rest.len() implies (#[trigger] acc[a]).score >= (#[trigger] rest[b]).score by {
            assert(rest[b] == order[b + 1]);
        }
        let acc2 = acc.push(m);
        assert forall|a: int, b: int| 0 <= a < b < acc2.len() implies (#[trigger] acc2[a]).score >= (#[trigger] acc2[b]).score by {
            assert(acc2[a] == acc[a]);
            if b < acc.len() {
                assert(acc2[b] == acc[b]);
            } else {
                assert(acc[a].score >= order[0].score);
            }
        }
        assert forall|a: int, b: int| 0 <= a < acc2.len() && 0 <= b < rest.len() implies (#[trigger] acc2[a]).score >= (#[trigger] rest[b]).score by {
            assert(rest[b] == order[b + 1]);
            if a < acc.len() {
                assert(acc2[a] == acc[a]);
            } else {
                assert(order[0].score >= order[b + 1].score);
            }
        }
        match m.tool_chain_start {
            Some(c) => if seen.contains(c) {
                lemma_pick_ordered(rest, count, seen, acc);
            } else {
                lemma_pick_ordered(rest, count, seen.insert(c), acc2);
            },
            None => lemma_pick_ordered(rest, count, seen, acc2),
        }
    }
}

/// The prune candidates come best first: along the selection the messages'
/// scores never rise, and each candidate has a positive score.
pub proof fn lemma_selection_ordered(scored: Seq<ScoredMessage>, count: nat)
    requires
        forall|k: int| 0 <= k < scored.len() ==> (#[trigger] scored[k]).index == k,
    ensures
        ({
            let sel = selection(scored, count);
            &&& sel.len() <= count
            &&& forall|a: int| 0 <= a < sel.len() ==> (#[trigger] sel[a]) < scored.len() && scored[sel[a] as int].score > 0
            &&& forall|a: int, b: int| 0 <= a < b < sel.len() ==>
                scored[(#[trigger] sel[a]) as int].score >= scored[(#[trigger] sel[b]) as int].score
        }),
{
    lemma_selection_sound(scored, count);
    lemma_sort_desc_ordered(positive(scored));
    lemma_pick_ordered(sort_desc(positive(scored)), count, Set::empty(), Seq::empty());
    let picked = pick(sort_desc(positive(scored)), count, Set::empty(), Seq::empty());
    let sel = selection(scored, count);
    assert(sel == indices(picked));
    assert forall|a: int| 0 <= a < picked.len() implies picked[a].index < scored.len() && #[trigger] scored[picked[a].index as int] == picked[a] by {
        assert(scored.contains(picked[a]));
        let p = choose|p: int| 0 <= p < scored.len() && scored[p] == picked[a];
        assert(scored[p].index == p);
    }
    assert forall|a: int| 0 <= a < sel.len() implies (#[trigger] sel[a]) < scored.len() && scored[sel[a] as int].score > 0 by {
        assert(sel[a] == picked[a].index);
        assert(scored[picked[a].index as int] == picked[a]);
    }
    assert forall|a: int, b: int| 0 <= a < b < sel.len() implies
        scored[(#[trigger] sel[a]) as int].score >= scored[(#[trigger] sel[b]) as int].score by {
        assert(sel[a] == picked[a].index && sel[b] == picked[b].index);
        assert(scored[picked[a].index as int] == picked[a]);
        assert(scored[picked[b].index as int] == picked[b]);
    }
}

proof fn lemma_ins_desc_keeps(s: Seq<ScoredMessage>, x: ScoredMessage)
    ensures
        ins_desc(s, x).contains(x),
        forall|y: ScoredMessage| s.contains(y) ==> #[trigger] ins_desc(s, x).contains(y),
    decreases s.len(),
{
    if s.len() == 0 {
        assert(ins_desc(s, x)[0] == x);
    } else if s.last().score >= x.score {
        let r = s.push(x);
        assert(r[s.len() as int] == x);
        assert forall|y: ScoredMessage| s.contains(y) implies #[trigger] r.contains(y) by {
            let q = choose|q: int| 0 <= q < s.len() && s[q] == y;
            assert(r[q] == y);
        }
    } else {
        let init = s.drop_last();
        lemma_ins_desc_keeps(init, x);
        let t = ins_desc(init, x);
        let r = t.push(s.last());
        let q0 = choose|q: int| 0 <= q < t.len() && t[q] == x;
        assert(r[q0] == x);
        assert forall|y: ScoredMessage| s.contains(y) implies #[trigger] r.contains(y) by {
            let q = choose|q: int| 0 <= q < s.len() && s[q] == y;
            if q < init.len() {
                assert(init[q] == y);
                assert(t.contains(y));
                let q2 = choose|q2: int| 0 <= q2 < t.len() && t[q2] == y;
                assert(r[q2] == y);
            } else {
                assert(r[t.len() as int] == y);
            }
        }
    }
}

proof fn lemma_sort_positive_keeps(s: Seq<ScoredMessage>, k: int)
    requires
        0 <= k < s.len(),
        s[k].score > 0,
    ensures
        sort_desc(positive(s)).contains(s[k]),
    decreases s.len(),
{
    let init = s.drop_last();
    let p0 = positive(init);
    if k < s.len() - 1 {
        assert(init[k] == s[k]);
        lemma_sort_positive_keeps(init, k);
        if s.last().score > 0 {
            assert(positive(s).drop_last() =~= p0);
            lemma_ins_desc_keeps(sort_desc(p0), s.last());
        }
    } else {
        assert(positive(s).drop_last() =~= p0);
        lemma_ins_desc_keeps(sort_desc(p0), s.last());
    }
}

proof fn lemma_pick_complete(order: Seq<ScoredMessage>, count: nat, seen: Set<usize>, acc: Seq<ScoredMessage>)
    requires
        non_increasing(order),
        acc.len() <= count,
        forall|a: int, b: int| 0 <= a < acc.len() && 0 <= b < order.len() ==> (#[trigger] acc[a]).score >= (#[trigger] order[b]).score,
        forall|c: usize| #[trigger] seen.contains(c) ==> exists|a: int| 0 <= a < acc.len() && acc[a].tool_chain_start == Some(c),
    ensures
        ({
            let r = pick(order, count, seen, acc);
            &&& acc.len() <= r.len()
            &&& forall|a: int| 0 <= a < acc.len() ==> #[trigger] r[a] == acc[a]
            &&& forall|b: int| 0 <= b < order.len() ==> {
                ||| r.contains(#[trigger] order[b])
                ||| (order[b].tool_chain_start is Some
                    && exists|a: int| 0 <= a < r.len() && r[a].tool_chain_start == order[b].tool_chain_start)
                ||| (r.len() >= count && forall|a: int| 0 <= a < r.len() ==> r[a].score >= order[b].score)
            }
        }),
    decreases order.len(),
{
    let r = pick(order, count, seen, acc);
    if order.len() == 0 || acc.len() >= count {
        assert(r == acc);
    } else {
        let m = order[0];
        let rest = order.drop_first();
        assert forall|a: int, b: int| 0 <= a < b < rest.len() implies (#[trigger] rest[a]).score >= (#[trigger] rest[b]).score by {
            assert(rest[a] == order[a + 1] && rest[b] == order[b + 1]);
        }
        assert forall|a: int, b: int| 0 <= a < acc.len() && 0 <= b < rest.len() implies (#[trigger] acc[a]).score >= (#[trigger] rest[b]).score by {
            assert(rest[b] == order[b + 1]);
        }
        let acc2 = acc.push(m);
        assert forall|a: int, b: int| 0 <= a < acc2.len() && 0 <= b < rest.len() implies (#[trigger] acc2[a]).score >= (#[trigger] rest[b]).score by {
            assert(rest[b] == order[b + 1]);
            if a < acc.len() {
                assert(acc2[a] == acc[a]);
            } else {
                assert(order[0].score >= order[b + 1].score);
            }
        }
        let skip = match m.tool_chain_start { Some(c) => seen.contains(c), None => false };
        if skip {
            let c = m.tool_chain_start->0;
            lemma_pick_complete(rest, count, seen, acc);
            let a0 = choose|a: int| 0 <= a < acc.len() && acc[a].tool_chain_start == Some(c);
            assert(r[a0] == acc[a0]);
            assert forall|b: int| 0 <= b < order.len() implies {
                ||| r.contains(#[trigger] order[b])
                ||| (order[b].tool_chain_start is Some
                    && exists|a: int| 0 <= a < r.len() && r[a].tool_chain_start == order[b].tool_chain_start)
                ||| (r.len() >= count && forall|a: int| 0 <= a < r.len() ==> r[a].score >= order[b].score)
            } by {
                if b > 0 {
                    assert(order[b] == rest[b - 1]);
                }
            }
        } else {
            let seen2 = match m.tool_chain_start { Some(c) => seen.insert(c), None => seen };
            assert forall|c: usize| #[trigger] seen2.contains(c) implies exists|a: int| 0 <= a < acc2.len() && acc2[a].tool_chain_start == Some(c) by {
                if seen.contains(c) {
                    let a = choose|a: int| 0 <= a < acc.len() && acc[a].tool_chain_start == Some(c);
                    assert(acc2[a] == acc[a]);
                } else {
                    assert(acc2[acc.len() as int] == m);
                }
            }
            assert(r == pick(rest, count, seen2, acc2));
            lemma_pick_complete(rest, count, seen2, acc2);
            assert(r[acc.len() as int] == m);
            assert forall|a: int| 0 <= a < acc.len() implies #[trigger] r[a] == acc[a] by {
                assert(acc2[a] == acc[a]);
            }
            assert forall|b: int| 0 <= b < order.len() implies {
                ||| r.contains(#[trigger] order[b])
                ||| (order[b].tool_chain_start is Some
                    && exists|a: int| 0 <= a < r.len() && r[a].tool_chain_start == order[b].tool_chain_start)
                ||| (r.len() >= count && forall|a: int| 0 <= a < r.len() ==> r[a].score >= order[b].score)
            } by {
                if b > 0 {
                    assert(order[b] == rest[b - 1]);
                } else {
                    assert(r[acc.len() as int] == order[0]);
                }
            }
        }
    }
}

/// The prune candidates are the best ones: a message with a positive score
/// that is not a candidate either shares its tool chain with a candidate, or
/// the candidates are as many as were asked for and each scores at least as
/// much as it does.
pub proof fn lemma_selection_best(scored: Seq<ScoredMessage>, count: nat, k: int)
    requires
        forall|q: int| 0 <= q < scored.len() ==> (#[trigger] scored[q]).index == q,
        0 <= k < scored.len(),
        scored[k].score > 0,
        !selection(scored, count).contains(k as usize),
    ensures
        ({
            let sel = selection(scored, count);
            ||| (scored[k].tool_chain_start is Some
                && exists|a: int| 0 <= a < sel.len() && scored[sel[a] as int].tool_chain_start == scored[k].tool_chain_start)
            ||| (sel.len() == count && forall|a: int| 0 <= a < sel.len() ==> scored[#[trigger] sel[a] as int].score >= scored[k].score)
        }),
{
    lemma_selection_sound(scored, count);
    let order = sort_desc(positive(scored));
    lemma_sort_desc_ordered(positive(scored));
    lemma_sort_positive_keeps(scored, k);
    lemma_pick_complete(order, count, Set::empty(), Seq::empty());
    let picked = pick(order, count, Set::empty(), Seq::empty());
    let sel = selection(scored, count);
    assert(sel == indices(picked));
    assert forall|a: int| 0 <= a < picked.len() implies picked[a].index < scored.len() && #[trigger] scored[picked[a].index as int] == picked[a] by {
        assert(scored.contains(picked[a]));
        let p = choose|p: int| 0 <= p < scored.len() && scored[p] == picked[a];
        assert(scored[p].index == p);
    }
    let b = choose|b: int| 0 <= b < order.len() && order[b] == scored[k];
    assert(order[b] == scored[k]);
    if picked.contains(scored[k]) {
        let a = choose|a: int| 0 <= a < picked.len() && picked[a] == scored[k];
        assert(sel[a] == k as usize);
        assert(false);
    } else if scored[k].tool_chain_start is Some
        && exists|a: int| 0 <= a < picked.len() && picked[a].tool_chain_start == scored[k].tool_chain_start {
        let a = choose|a: int| 0 <= a < picked.len() && picked[a].tool_chain_start == scored[k].tool_chain_start;
        assert(sel[a] == picked[a].index);
        assert(scored[sel[a] as int].tool_chain_start == scored[k].tool_chain_start);
    } else {
        assert(picked.len() >= count);
        assert forall|a: int| 0 <= a < sel.len() implies scored[#[trigger] sel[a] as int].score >= scored[k].score by {
            assert(sel[a] == picked[a].index);
            assert(scored[picked[a].index as int] == picked[a]);
        }
    }
}

} // verus!
