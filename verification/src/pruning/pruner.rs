//! Pruning a conversation: when to prune, which candidates to put to the
//! evaluator, and how the decisions reshape the conversation. The calls to the
//! evaluator, the summariser and the memory store are made by the caller
//! between these steps.
use vstd::prelude::*;

use super::scorer::{chain_models, find_tool_chains, lemma_tool_chains_disjoint, scored_model, selection, tool_chains, ChainModel, TurnScorer};
use super::{PruneAction, PruneDecision, ToolChain};
use crate::config::PruningConfig;
use crate::text::to_owned_string;
use crate::memory::Metadata;
use crate::message::{content_or_empty, message_from_turn, message_of_turn, Message};
use crate::turn::{kind_content, ContextType, Turn, TurnKind};

verus! {

/// The first of `chains`, from position `i` on, that contains turn `k`.
pub open spec fn first_from(chains: Seq<ChainModel>, k: int, i: int) -> Option<ChainModel>
    decreases chains.len() - i,
{
    if i < 0 || i >= chains.len() {
        None
    } else if chains[i].start <= k && k <= chains[i].end {
        Some(chains[i])
    } else {
        first_from(chains, k, i + 1)
    }
}

/// The turns that go together with turn `k`, as a range `(first, last)`: the
/// first tool chain that contains it, or `k` alone.
pub open spec fn chain_span(chains: Seq<ChainModel>, k: int) -> (int, int) {
    match first_from(chains, k, 0) {
        Some(c) => (c.start, c.end),
        None => (k, k),
    }
}

/// The positions of a range, ascending.
pub open spec fn span_seq(span: (int, int)) -> Seq<usize> {
    Seq::new((span.1 - span.0 + 1) as nat, |j: int| (span.0 + j) as usize)
}

/// Whether `k` lies in the range.
pub open spec fn in_span(span: (int, int), k: int) -> bool {
    span.0 <= k && k <= span.1
}

/// The positions that go with turn `index` when it is pruned: every turn of
/// the first tool chain that contains it, or the turn alone.
pub fn get_chain_indices(index: usize, chains: &Vec<ToolChain>) -> (res: Vec<usize>)
    ensures
        res@ == span_seq(chain_span(chain_models(chains@), index as int)),
        0 <= chain_span(chain_models(chains@), index as int).0 <= index,
        index <= chain_span(chain_models(chains@), index as int).1 <= usize::MAX,
{
    let ghost cm = chain_models(chains@);
    for i in 0..chains.len()
        invariant
            cm == chain_models(chains@),
            first_from(cm, index as int, 0) == first_from(cm, index as int, i as int),
    {
        let c = &chains[i];
        assert(cm[i as int].start == c.start_index && cm[i as int].end == c.end_index);
        if index >= c.start_index && index <= c.end_index {
            let lo = c.start_index;
            let hi = c.end_index;
            let mut out: Vec<usize> = Vec::new();
            for j in lo..hi
                invariant
                    lo <= hi,
                    out@ == span_seq((lo as int, j - 1)),
            {
                out.push(j);
                assert(out@ =~= span_seq((lo as int, j as int)));
            }
            out.push(hi);
            assert(out@ =~= span_seq((lo as int, hi as int)));
            return out;
        }
    }
    let mut out: Vec<usize> = Vec::new();
    out.push(index);
    assert(out@ =~= span_seq((index as int, index as int)));
    out
}

/// The action folds the turn into a summary.
pub open spec fn folds(a: PruneAction) -> bool {
    a == PruneAction::Summarize || a == PruneAction::Both
}

/// The action saves the turn to memory.
pub open spec fn saves(a: PruneAction) -> bool {
    a == PruneAction::Persist || a == PruneAction::Both
}

/// Turn `k` is removed by one of the decisions `ds`: it lies in the span of
/// one of them.
pub open spec fn removed_by(chains: Seq<ChainModel>, ds: Seq<PruneDecision>, k: int) -> bool
    decreases ds.len(),
{
    if ds.len() == 0 {
        false
    } else {
        removed_by(chains, ds.drop_last(), k) || in_span(chain_span(chains, ds.last().index as int), k)
    }
}

/// Position `k` is folded into the summary by one of the decisions `ds`: it
/// lies in the span of one whose action summarises.
pub open spec fn folded_by(chains: Seq<ChainModel>, ds: Seq<PruneDecision>, k: int) -> bool
    decreases ds.len(),
{
    if ds.len() == 0 {
        false
    } else {
        folded_by(chains, ds.drop_last(), k)
            || (folds(ds.last().action) && in_span(chain_span(chains, ds.last().index as int), k))
    }
}

/// The `(position, memory key)` pairs to save, in decision order: those of the
/// decisions that save and name a key, when saving is on.
pub open spec fn persist_list(ds: Seq<PruneDecision>, enabled: bool) -> Seq<(usize, Seq<char>)>
    decreases ds.len(),
{
    if ds.len() == 0 {
        Seq::empty()
    } else {
        let prev = persist_list(ds.drop_last(), enabled);
        let d = ds.last();
        match d.memory_key {
            Some(key) => if enabled && saves(d.action) { prev.push((d.index, key@)) } else { prev },
            None => prev,
        }
    }
}

/// With saving on, the pairs kept for memory are exactly those of the
/// decisions that persist the turn (`Persist`) or persist and summarise it
/// (`Both`) and name a key, each as (position, key), in decision order; a
/// decision that only drops or summarises saves nothing. With saving off,
/// nothing is kept.
pub proof fn lemma_persist_pairs(ds: Seq<PruneDecision>)
    ensures
        persist_list(ds, true) == ds.filter(
            |d: PruneDecision| (d.action == PruneAction::Persist || d.action == PruneAction::Both) && d.memory_key is Some,
        ).map_values(|d: PruneDecision| (d.index, d.memory_key->0@)),
        persist_list(ds, false).len() == 0,
        forall|i: int| 0 <= i < ds.len() && ((#[trigger] ds[i]).action == PruneAction::Persist || ds[i].action == PruneAction::Both)
            && ds[i].memory_key is Some ==> persist_list(ds, true).contains((ds[i].index, ds[i].memory_key->0@)),
    decreases ds.len(),
{
    let pred = |d: PruneDecision| (d.action == PruneAction::Persist || d.action == PruneAction::Both) && d.memory_key is Some;
    let f = |d: PruneDecision| (d.index, d.memory_key->0@);
    if ds.len() == 0 {
        reveal(Seq::filter);
        assert(ds.filter(pred) =~= Seq::<PruneDecision>::empty());
        assert(persist_list(ds, true) =~= ds.filter(pred).map_values(f));
    } else {
        let init = ds.drop_last();
        lemma_persist_pairs(init);
        reveal(Seq::filter);
        assert(ds.filter(pred) == (if pred(ds.last()) { init.filter(pred).push(ds.last()) } else { init.filter(pred) }));
        if pred(ds.last()) {
            assert(init.filter(pred).push(ds.last()).map_values(f) =~= init.filter(pred).map_values(f).push(f(ds.last())));
        }
        assert(persist_list(ds, true) =~= ds.filter(pred).map_values(f));
        assert forall|i: int| 0 <= i < ds.len() && ((#[trigger] ds[i]).action == PruneAction::Persist || ds[i].action == PruneAction::Both)
            && ds[i].memory_key is Some implies persist_list(ds, true).contains((ds[i].index, ds[i].memory_key->0@)) by {
            let l = persist_list(ds, true);
            if i < init.len() {
                assert(init[i] == ds[i]);
                let l0 = persist_list(init, true);
                let q = choose|q: int| 0 <= q < l0.len() && l0[q] == (ds[i].index, ds[i].memory_key->0@);
                assert(l[q] == l0[q]);
            } else {
                assert(l[l.len() - 1] == (ds[i].index, ds[i].memory_key->0@));
            }
        }
    }
}

/// Chains whose members are ordered, and that end before the next one starts.
pub open spec fn chains_disjoint(chains: Seq<ChainModel>) -> bool {
    &&& forall|p: int| 0 <= p < chains.len() ==> #[trigger] chains[p].start <= chains[p].end
    &&& forall|q1: int, q2: int| 0 <= q1 < q2 < chains.len() ==>
            #[trigger] chains[q1].end < #[trigger] chains[q2].start
}

proof fn lemma_first_from_is_member(chains: Seq<ChainModel>, k: int, i: int)
    requires
        first_from(chains, k, i) is Some,
    ensures
        exists|p: int| #![trigger chains[p]] i <= p < chains.len() && first_from(chains, k, i) == Some(chains[p])
            && chains[p].start <= k <= chains[p].end,
    decreases chains.len() - i,
{
    if !(chains[i].start <= k && k <= chains[i].end) {
        lemma_first_from_is_member(chains, k, i + 1);
    } else {
        assert(first_from(chains, k, i) == Some(chains[i]));
    }
}

proof fn lemma_first_from_finds(chains: Seq<ChainModel>, q: int, k: int, i: int)
    requires
        chains_disjoint(chains),
        0 <= i <= q < chains.len(),
        chains[q].start <= k <= chains[q].end,
    ensures
        first_from(chains, k, i) == Some(chains[q]),
    decreases q - i,
{
    if i < q {
        assert(chains[i].end < chains[q].start);
        lemma_first_from_finds(chains, q, k, i + 1);
    }
}

/// Within disjoint chains, a position inside chain `q` has chain `q` as its
/// span, whatever other position of the chain it was reached from.
proof fn lemma_span_in_chain(chains: Seq<ChainModel>, q: int, x: int, k: int)
    requires
        chains_disjoint(chains),
        0 <= q < chains.len(),
        chains[q].start <= k <= chains[q].end,
        in_span(chain_span(chains, x), k),
    ensures
        chain_span(chains, x) == (chains[q].start, chains[q].end),
{
    if first_from(chains, x, 0) is Some {
        lemma_first_from_is_member(chains, x, 0);
        let p = choose|p: int| #![trigger chains[p]] 0 <= p < chains.len() && first_from(chains, x, 0) == Some(chains[p])
            && chains[p].start <= x <= chains[p].end;
        if p < q {
            assert(chains[p].end < chains[q].start);
        } else if q < p {
            assert(chains[q].end < chains[p].start);
        }
    } else {
        lemma_first_from_finds(chains, q, k, 0);
    }
}

proof fn lemma_removed_whole(chains: Seq<ChainModel>, ds: Seq<PruneDecision>, q: int, k1: int, k2: int)
    requires
        chains_disjoint(chains),
        0 <= q < chains.len(),
        chains[q].start <= k1 <= chains[q].end,
        chains[q].start <= k2 <= chains[q].end,
        removed_by(chains, ds, k1),
    ensures
        removed_by(chains, ds, k2),
    decreases ds.len(),
{
    if removed_by(chains, ds.drop_last(), k1) {
        lemma_removed_whole(chains, ds.drop_last(), q, k1, k2);
    } else {
        lemma_span_in_chain(chains, q, ds.last().index as int, k1);
    }
}

/// A set of decisions removes a tool chain whole: when one turn of a chain of
/// the conversation is removed, every turn of that chain is removed too.
pub proof fn lemma_chain_removed_whole(turns: Seq<Turn>, ds: Seq<PruneDecision>, q: int, k1: int, k2: int)
    requires
        0 <= q < tool_chains(turns).len(),
        tool_chains(turns)[q].start <= k1 <= tool_chains(turns)[q].end,
        tool_chains(turns)[q].start <= k2 <= tool_chains(turns)[q].end,
        removed_by(tool_chains(turns), ds, k1),
    ensures
        removed_by(tool_chains(turns), ds, k2),
{
    lemma_tool_chains_disjoint(turns);
    lemma_removed_whole(tool_chains(turns), ds, q, k1, k2);
}

/// Pairs of a position and a text, by the view of the text.
pub open spec fn pair_views(v: Seq<(usize, String)>) -> Seq<(usize, Seq<char>)> {
    v.map_values(|p: (usize, String)| (p.0, p.1@))
}

/// Strictly ascending.
pub open spec fn ascending(s: Seq<usize>) -> bool {
    forall|i: int, j: int| 0 <= i < j < s.len() ==> s[i] < s[j]
}

/// What a set of decisions does to a conversation.
#[derive(Debug)]
pub struct PrunePlan {
    /// `remove[k]`: turn `k` leaves the conversation.
    pub remove: Vec<bool>,
    /// The positions folded into the summary, ascending, each once.
    pub summarize: Vec<usize>,
    /// The `(position, memory key)` of each turn to save, in decision order.
    pub persist: Vec<(usize, String)>,
}

fn insert_sorted(v: &mut Vec<usize>, x: usize)
    requires
        ascending(old(v)@),
    ensures
        ascending(final(v)@),
        forall|y: usize| final(v)@.contains(y) <==> (old(v)@.contains(y) || y == x),
{
    let mut p: usize = 0;
    while p < v.len() && v[p] < x
        invariant
            p <= v.len(),
            forall|q: int| 0 <= q < p ==> v@[q] < x,
        decreases v.len() - p,
    {
        p += 1;
    }
    if p < v.len() && v[p] == x {
        return;
    }
    let ghost o = v@;
    v.insert(p, x);
    let ghost f = v@;
    assert(p < o.len() ==> o[p as int] > x);
    assert forall|i: int, j: int| 0 <= i < j < f.len() implies f[i] < f[j] by {
        if j < p {
        } else if j == p {
        } else if i < p {
            assert(f[j] == o[j - 1]);
            assert(o[p as int] <= o[j - 1]);
        } else if i == p {
            assert(f[j] == o[j - 1]);
            assert(o[p as int] <= o[j - 1]);
        } else {
            assert(f[j] == o[j - 1] && f[i] == o[i - 1]);
        }
    }
    assert forall|y: usize| f.contains(y) <==> (o.contains(y) || y == x) by {
        if f.contains(y) {
            let j = choose|j: int| 0 <= j < f.len() && f[j] == y;
            if j < p {
                assert(o[j] == y);
            } else if j > p {
                assert(o[j - 1] == y);
            }
        }
        if o.contains(y) {
            let j = choose|j: int| 0 <= j < o.len() && o[j] == y;
            if j < p {
                assert(f[j] == y);
            } else {
                assert(f[j + 1] == y);
            }
        }
        if y == x {
            assert(f[p as int] == y);
        }
    }
}

/// The `(key, text)` writes for the memory store: for each pair to save
/// whose position holds a turn with text, that text under the pair's key.
pub open spec fn persist_contents(turns: Seq<Turn>, list: Seq<(usize, Seq<char>)>) -> Seq<(Seq<char>, Seq<char>)>
    decreases list.len(),
{
    if list.len() == 0 {
        Seq::empty()
    } else {
        let prev = persist_contents(turns, list.drop_last());
        let (idx, key) = list.last();
        if idx < turns.len() {
            match kind_content(turns[idx as int].kind) {
                Some(c) => prev.push((key, c)),
                None => prev,
            }
        } else {
            prev
        }
    }
}

/// Pairs of texts by their views.
pub open spec fn text_pairs(v: Seq<(String, String)>) -> Seq<(Seq<char>, Seq<char>)> {
    v.map_values(|p: (String, String)| (p.0@, p.1@))
}

/// The positions of `idxs` that hold a turn, in order.
pub open spec fn present(idxs: Seq<usize>, n: int) -> Seq<usize>
    decreases idxs.len(),
{
    if idxs.len() == 0 {
        Seq::empty()
    } else {
        let prev = present(idxs.drop_last(), n);
        if idxs.last() < n { prev.push(idxs.last()) } else { prev }
    }
}

/// The turns at positions where `remove` is false, in order.
pub open spec fn kept(turns: Seq<Turn>, remove: Seq<bool>) -> Seq<Turn>
    decreases turns.len(),
{
    if turns.len() == 0 || remove.len() == 0 {
        Seq::empty()
    } else {
        let prev = kept(turns.drop_last(), remove.drop_last());
        if remove.last() { prev } else { prev.push(turns.last()) }
    }
}

/// The turn is a summary with this text, standing for this range.
pub open spec fn is_summary_of(t: Turn, content: Seq<char>, range: (usize, usize)) -> bool {
    t.kind matches TurnKind::InjectedContext { content: c, context_type: ContextType::Summary { summarized_range: r } }
        && c@ == content && r == range
}

proof fn lemma_folded_removed(chains: Seq<ChainModel>, ds: Seq<PruneDecision>, k: int)
    ensures
        folded_by(chains, ds, k) ==> removed_by(chains, ds, k),
    decreases ds.len(),
{
    if ds.len() > 0 {
        lemma_folded_removed(chains, ds.drop_last(), k);
    }
}

proof fn lemma_kept_len(turns: Seq<Turn>, remove: Seq<bool>)
    requires
        remove.len() == turns.len(),
    ensures
        kept(turns, remove).len() <= turns.len(),
        (exists|k: int| 0 <= k < turns.len() && remove[k]) ==> kept(turns, remove).len() < turns.len(),
    decreases turns.len(),
{
    if turns.len() > 0 {
        let ti = turns.drop_last();
        let ri = remove.drop_last();
        lemma_kept_len(ti, ri);
        if exists|k: int| 0 <= k < turns.len() && remove[k] {
            let k = choose|k: int| 0 <= k < turns.len() && remove[k];
            if k < turns.len() - 1 {
                assert(ri[k]);
            }
        }
    }
}

/// A prune pass never lengthens the conversation: when a summary is added,
/// at least one turn it stands for is removed, so the summary and the kept
/// turns together are no more than the turns before.
pub proof fn lemma_summary_fits(turns: Seq<Turn>, remove: Seq<bool>, summarize: Seq<usize>)
    requires
        remove.len() == turns.len(),
        forall|x: usize| #[trigger] summarize.contains(x) && x < turns.len() ==> remove[x as int],
        present(summarize, turns.len() as int).len() > 0,
    ensures
        kept(turns, remove).len() + 1 <= turns.len(),
{
    lemma_present_member(summarize, turns.len() as int);
    let x = present(summarize, turns.len() as int)[0];
    assert(remove[x as int]);
    lemma_kept_len(turns, remove);
}

/// A conversation within the hard limit stays within it after a prune pass:
/// the summary (made only when the plan folds a turn that exists) and the
/// kept turns together fit the limit.
pub proof fn lemma_prune_pass_within_hard_limit(
    turns: Seq<Turn>,
    remove: Seq<bool>,
    summarize: Seq<usize>,
    hard: nat,
    with_summary: bool,
)
    requires
        turns.len() <= hard,
        remove.len() == turns.len(),
        forall|x: usize| #[trigger] summarize.contains(x) && x < turns.len() ==> remove[x as int],
        with_summary ==> present(summarize, turns.len() as int).len() > 0,
    ensures
        kept(turns, remove).len() + (if with_summary { 1int } else { 0int }) <= hard,
{
    lemma_kept_len(turns, remove);
    if with_summary {
        lemma_summary_fits(turns, remove, summarize);
    }
}

proof fn lemma_present_member(idxs: Seq<usize>, n: int)
    requires
        present(idxs, n).len() > 0,
    ensures
        idxs.contains(present(idxs, n)[0]) && present(idxs, n)[0] < n,
    decreases idxs.len(),
{
    let prev = present(idxs.drop_last(), n);
    if prev.len() > 0 {
        lemma_present_member(idxs.drop_last(), n);
        let x = prev[0];
        let j = choose|j: int| 0 <= j < idxs.drop_last().len() && idxs.drop_last()[j] == x;
        assert(idxs[j] == x);
    } else {
        assert(idxs[idxs.len() - 1] == idxs.last());
    }
}

/// The range a summary of the positions `idxs` records: the first and the
/// last of them, or zero for none.
pub open spec fn summary_range(idxs: Seq<usize>) -> (usize, usize) {
    if idxs.len() == 0 { (0, 0) } else { (idxs[0], idxs.last()) }
}

/// The metadata of a turn saved to memory when it is pruned.
pub fn pruned_metadata() -> (res: Metadata)
    ensures
        res.tags@.len() == 1,
        res.tags@[0]@ == "auto-pruned"@,
        res.source matches Some(s) && s@ == "pruning"@,
{
    let mut tags: Vec<String> = Vec::new();
    tags.push(to_owned_string("auto-pruned"));
    Metadata { tags, source: Some(to_owned_string("pruning")) }
}

/// Applies prune decisions to a conversation.
#[derive(Debug)]
pub struct MessagePruner {
    pub scorer: TurnScorer,
    pub chat_key: String,
    pub config: PruningConfig,
}

/// How a prune pass starts.
#[derive(Debug)]
pub enum PruneStart {
    /// The conversation is within its soft limit and stays as it is.
    WithinLimit,
    /// No turn qualifies for pruning; the conversation stays as it is.
    NoCandidates,
    /// The candidates go to the evaluator, which decides for each.
    Evaluate(Vec<usize>),
    /// Evaluation is switched off: every candidate is dropped.
    Decided(Vec<PruneDecision>),
}

/// The decisions that drop each of `candidates`, for `reason`.
pub open spec fn drops_for(candidates: Seq<usize>, reason: Seq<char>) -> spec_fn(Seq<PruneDecision>) -> bool {
    |ds: Seq<PruneDecision>| {
        &&& ds.len() == candidates.len()
        &&& forall|i: int| 0 <= i < ds.len() ==> {
            &&& (#[trigger] ds[i]).index == candidates[i]
            &&& ds[i].action == PruneAction::Drop
            &&& ds[i].memory_key is None
            &&& ds[i].reason@ == reason
        }
    }
}

/// A decision to drop each of `candidates`, giving `reason`.
pub fn drop_all(candidates: &Vec<usize>, reason: &str) -> (res: Vec<PruneDecision>)
    ensures
        (drops_for(candidates@, reason@))(res@),
{
    let mut out: Vec<PruneDecision> = Vec::new();
    for i in 0..candidates.len()
        invariant
            out.len() == i,
            forall|k: int| 0 <= k < i ==> {
                &&& (#[trigger] out@[k]).index == candidates@[k]
                &&& out@[k].action == PruneAction::Drop
                &&& out@[k].memory_key is None
                &&& out@[k].reason@ == reason@
            },
    {
        out.push(PruneDecision {
            index: candidates[i],
            action: PruneAction::Drop,
            memory_key: None,
            reason: to_owned_string(reason),
        });
    }
    out
}

/// How many turns a pass tries to remove: five below the soft limit, at most
/// one batch.
pub open spec fn removal_target(len: int, config: PruningConfig) -> int {
    let want = len - config.soft_limit + 5;
    if want <= config.batch_size { want } else { config.batch_size as int }
}

impl MessagePruner {
    /// A pruner for the conversation `chat_key` with the limits of `config`.
    pub fn new(chat_key: &str, config: PruningConfig) -> (res: Self)
        ensures
            res.chat_key@ == chat_key@,
            res.config == config,
            res.scorer.max_age_hours_bits == config.max_age_hours_bits,
    {
        MessagePruner { scorer: TurnScorer::new(&config), chat_key: to_owned_string(chat_key), config }
    }

    /// The conversation is over its hard limit.
    pub fn needs_hard_prune(turns: &Vec<Turn>, hard_limit: usize) -> (res: bool)
        ensures
            res == (turns.len() > hard_limit),
    {
        turns.len() > hard_limit
    }

    /// The conversation cut to its last `hard_limit` turns.
    pub fn hard_prune(turns: Vec<Turn>, hard_limit: usize) -> (res: Vec<Turn>)
        ensures
            turns.len() <= hard_limit ==> res@ == turns@,
            turns.len() > hard_limit ==> res@ == turns@.skip(turns.len() - hard_limit),
            res.len() <= hard_limit || res@ == turns@,
    {
        if turns.len() <= hard_limit {
            return turns;
        }
        let excess = turns.len() - hard_limit;
        let ghost orig = turns@;
        let mut turns = turns;
        let rest = turns.split_off(excess);
        assert(rest@ =~= orig.skip(excess as int));
        rest
    }

    /// The first step of a prune pass over `turns`, whose turns have the
    /// weighted scores `base_scores` (a summary turn counts as zero whatever
    /// its weighted score): nothing to do within the soft limit;
    /// otherwise the best candidates (at most one batch, aiming five below the
    /// soft limit) go to the evaluator, or are all dropped when neither
    /// summarising nor saving to memory is on.
    pub fn prune(&self, turns: &Vec<Turn>, base_scores: &Vec<u64>) -> (res: PruneStart)
        requires
            base_scores.len() == turns.len(),
        ensures
            turns.len() <= self.config.soft_limit ==> res is WithinLimit,
            turns.len() > self.config.soft_limit ==> {
                let picked = selection(scored_model(turns@, base_scores@),
                    removal_target(turns.len() as int, self.config) as nat);
                match res {
                    PruneStart::WithinLimit => false,
                    PruneStart::NoCandidates => picked.len() == 0,
                    PruneStart::Evaluate(c) => picked.len() > 0 && c@ == picked
                        && (self.config.enable_summarization || self.config.enable_memory_persist),
                    PruneStart::Decided(ds) => picked.len() > 0
                        && !self.config.enable_summarization && !self.config.enable_memory_persist
                        && (drops_for(picked, "Evaluation disabled"@))(ds@),
                }
            },
    {
        let n = turns.len();
        if n <= self.config.soft_limit {
            return PruneStart::WithinLimit;
        }
        let over = n - self.config.soft_limit;
        let batch = self.config.batch_size;
        let count = if batch >= 5 && over <= batch - 5 { over + 5 } else { batch };
        let scored = self.scorer.score_all(turns, base_scores);
        let candidates = self.scorer.select_candidates(&scored, count);
        if candidates.len() == 0 {
            return PruneStart::NoCandidates;
        }
        if self.config.enable_summarization || self.config.enable_memory_persist {
            PruneStart::Evaluate(candidates)
        } else {
            PruneStart::Decided(drop_all(&candidates, "Evaluation disabled"))
        }
    }

    /// What `decisions` do to `turns`: every turn in the span of a decision
    /// leaves; the spans of summarising decisions make up the summary; the
    /// saving decisions that name a key are kept for the memory store when
    /// saving is on.
    pub fn plan_decisions(&self, turns: &Vec<Turn>, decisions: &Vec<PruneDecision>) -> (res: PrunePlan)
        ensures
            res.remove.len() == turns.len(),
            forall|k: int| 0 <= k < turns.len() ==> #[trigger] res.remove@[k] == removed_by(tool_chains(turns@), decisions@, k),
            ascending(res.summarize@),
            forall|x: usize| #[trigger] res.summarize@.contains(x) <==> folded_by(tool_chains(turns@), decisions@, x as int),
            pair_views(res.persist@) == persist_list(decisions@, self.config.enable_memory_persist),
            forall|x: usize| #[trigger] res.summarize@.contains(x) && x < turns.len() ==> res.remove@[x as int],
    {
        let chains = find_tool_chains(turns);
        let ghost cm = chain_models(chains@);
        let n = turns.len();
        let mut remove: Vec<bool> = Vec::new();
        for i in 0..n
            invariant
                remove.len() == i,
                forall|k: int| 0 <= k < i ==> !remove@[k],
        {
            remove.push(false);
        }
        let mut summarize: Vec<usize> = Vec::new();
        let mut persist: Vec<(usize, String)> = Vec::new();
        let enabled = self.config.enable_memory_persist;
        for i in 0..decisions.len()
            invariant
                cm == chain_models(chains@),
                cm == tool_chains(turns@),
                n == turns.len(),
                enabled == self.config.enable_memory_persist,
                remove.len() == n,
                forall|k: int| 0 <= k < n ==> #[trigger] remove@[k] == removed_by(cm, decisions@.take(i as int), k),
                ascending(summarize@),
                forall|x: usize| #[trigger] summarize@.contains(x) <==> folded_by(cm, decisions@.take(i as int), x as int),
                pair_views(persist@) == persist_list(decisions@.take(i as int), enabled),
        {
            let d = &decisions[i];
            let span = get_chain_indices(d.index, &chains);
            let ghost sp = chain_span(cm, d.index as int);
            let ghost pre = decisions@.take(i as int);
            let fold = d.action == PruneAction::Summarize || d.action == PruneAction::Both;
            for j in 0..span.len()
                invariant
                    span@ == span_seq(sp),
                    0 <= sp.0 <= sp.1 <= usize::MAX,
                    remove.len() == n,
                    fold == folds(d.action),
                    forall|k: int| 0 <= k < n ==> #[trigger] remove@[k] == (removed_by(cm, pre, k) || (sp.0 <= k < sp.0 + j)),
                    ascending(summarize@),
                    forall|x: usize| #[trigger] summarize@.contains(x) <==> (folded_by(cm, pre, x as int)
                        || (fold && sp.0 <= x < sp.0 + j)),
            {
                let idx = span[j];
                assert(idx == sp.0 + j);
                if idx < n {
                    remove.set(idx, true);
                }
                if fold {
                    insert_sorted(&mut summarize, idx);
                }
            }
            let ghost before = persist@;
            if enabled && (d.action == PruneAction::Persist || d.action == PruneAction::Both) {
                match &d.memory_key {
                    Some(key) => {
                        persist.push((d.index, key.clone()));
                        assert(pair_views(persist@) =~= pair_views(before).push((d.index, key@)));
                    },
                    None => {},
                }
            }
            assert(decisions@.take(i + 1).drop_last() =~= pre);
            assert(decisions@.take(i + 1).last() == *d);
        }
        assert(decisions@.take(decisions.len() as int) =~= decisions@);
        proof {
            assert forall|x: usize| #[trigger] summarize@.contains(x) && x < n implies remove@[x as int] by {
                lemma_folded_removed(cm, decisions@, x as int);
            }
        }
        PrunePlan { remove, summarize, persist }
    }

    /// The memory writes a plan asks for: nothing unless saving is on and a
    /// store is there (`has_memory`); else, for each pair to save whose
    /// position holds a turn with text, that text under the pair's key.
    pub fn persist_writes(&self, turns: &Vec<Turn>, plan: &PrunePlan, has_memory: bool) -> (res: Vec<(String, String)>)
        ensures
            !(self.config.enable_memory_persist && has_memory) ==> res@.len() == 0,
            self.config.enable_memory_persist && has_memory ==> text_pairs(res@) == persist_contents(turns@, pair_views(plan.persist@)),
    {
        let mut out: Vec<(String, String)> = Vec::new();
        if !(self.config.enable_memory_persist && has_memory) {
            return out;
        }
        let ghost list = pair_views(plan.persist@);
        for i in 0..plan.persist.len()
            invariant
                list == pair_views(plan.persist@),
                text_pairs(out@) == persist_contents(turns@, list.take(i as int)),
        {
            let (idx, key) = &plan.persist[i];
            let ghost before = out@;
            assert(list.take(i + 1).drop_last() =~= list.take(i as int));
            assert(list.take(i + 1).last() == (*idx, key@));
            if *idx < turns.len() {
                match turns[*idx].content() {
                    Some(c) => {
                        out.push((key.clone(), to_owned_string(c)));
                        assert(text_pairs(out@) =~= text_pairs(before).push((key@, c@)));
                    },
                    None => {},
                }
            }
        }
        assert(list.take(plan.persist.len() as int) =~= list);
        out
    }

    /// The messages to summarise: none when summarising is off or the plan
    /// folds nothing; else the message of each turn the plan folds, in order
    /// of position.
    pub fn summary_messages(&self, turns: &Vec<Turn>, plan: &PrunePlan) -> (res: Vec<Message>)
        ensures
            !self.config.enable_summarization || plan.summarize@.len() == 0 ==> res@.len() == 0,
            self.config.enable_summarization && plan.summarize@.len() > 0 ==> {
                let at = present(plan.summarize@, turns.len() as int);
                &&& res@.len() == at.len()
                &&& forall|i: int| 0 <= i < at.len() ==> message_of_turn(#[trigger] res@[i], turns@[at[i] as int])
            },
    {
        let mut out: Vec<Message> = Vec::new();
        if !self.config.enable_summarization || plan.summarize.len() == 0 {
            return out;
        }
        let ghost idxs = plan.summarize@;
        for i in 0..plan.summarize.len()
            invariant
                idxs == plan.summarize@,
                out@.len() == present(idxs.take(i as int), turns.len() as int).len(),
                forall|q: int| 0 <= q < out@.len() ==> message_of_turn(#[trigger] out@[q],
                    turns@[present(idxs.take(i as int), turns.len() as int)[q] as int]),
        {
            let idx = plan.summarize[i];
            let ghost prev = present(idxs.take(i as int), turns.len() as int);
            assert(idxs.take(i + 1).drop_last() =~= idxs.take(i as int));
            if idx < turns.len() {
                out.push(message_from_turn(&turns[idx]));
                assert(present(idxs.take(i + 1), turns.len() as int) == prev.push(idx));
            }
        }
        assert(idxs.take(idxs.len() as int) =~= idxs);
        out
    }

    /// The summary turn for a plan, given the summariser's text (empty when it
    /// gave none): it records the first and the last position folded.
    pub fn summary_turn(plan: &PrunePlan, content: Option<String>) -> (res: Turn)
        ensures
            res.kind matches TurnKind::InjectedContext { content: c, context_type: ContextType::Summary { summarized_range: r } }
                && c@ == content_or_empty(content) && r == summary_range(plan.summarize@),
    {
        let n = plan.summarize.len();
        let range = if n == 0 { (0, 0) } else { (plan.summarize[0], plan.summarize[n - 1]) };
        let ghost given = content;
        let text: String = match content {
            Some(c) => c,
            None => String::new(),
        };
        assert(text@ == content_or_empty(given));
        Turn::summary(text.as_str(), range)
    }

    /// The conversation after a plan: the summary turn first, if there is
    /// one, then every turn the plan keeps, in order.
    pub fn apply_decisions(&self, turns: Vec<Turn>, plan: &PrunePlan, summary: Option<Turn>) -> (res: Vec<Turn>)
        requires
            plan.remove.len() == turns.len(),
        ensures
            res@ == (match summary {
                Some(s) => seq![s],
                None => Seq::empty(),
            }) + kept(turns@, plan.remove@),
    {
        let mut result: Vec<Turn> = Vec::new();
        match summary {
            Some(s) => result.push(s),
            None => {},
        }
        let ghost lead = result@;
        let ghost orig = turns@;
        let ghost rm = plan.remove@;
        let n = turns.len();
        let mut rest = turns;
        let mut i: usize = 0;
        while rest.len() > 0
            invariant
                n == orig.len(),
                rm == plan.remove@,
                rm.len() == n,
                i + rest.len() == n,
                rest@ == orig.skip(i as int),
                result@ == lead + kept(orig.take(i as int), rm.take(i as int)),
            decreases rest.len(),
        {
            let ghost r0 = rest@;
            let t = rest.remove(0);
            assert(t == orig[i as int]) by {
                assert(r0[0] == orig.skip(i as int)[0]);
            }
            assert(rest@ =~= orig.skip(i + 1));
            assert(orig.take(i + 1).drop_last() =~= orig.take(i as int));
            assert(rm.take(i + 1).drop_last() =~= rm.take(i as int));
            let ghost kb = kept(orig.take(i as int), rm.take(i as int));
            let ghost gt = t;
            if !plan.remove[i] {
                result.push(t);
                assert(result@ =~= lead + kb.push(gt));
            }
            i += 1;
        }
        assert(orig.take(n as int) =~= orig);
        assert(rm.take(n as int) =~= rm);
        result
    }

    /// The end of a prune pass over `turns` with `plan`, given the
    /// summariser's outcome (`None` when it failed, else the text of its
    /// answer): a summary is made when summarising is on and the plan folds a
    /// turn that exists and the summariser answered; then the plan is applied.
    /// The conversation never grows.
    pub fn conclude(&self, turns: Vec<Turn>, plan: &PrunePlan, answer: Option<Option<String>>) -> (res: Vec<Turn>)
        requires
            plan.remove.len() == turns.len(),
            forall|x: usize| #[trigger] plan.summarize@.contains(x) && x < turns.len() ==> plan.remove@[x as int],
        ensures
            res.len() <= turns.len(),
            ({
                let asked = self.config.enable_summarization && present(plan.summarize@, turns.len() as int).len() > 0;
                &&& (!asked || answer is None) ==> res@ == kept(turns@, plan.remove@)
                &&& (asked && answer is Some) ==> res@.len() == kept(turns@, plan.remove@).len() + 1
                    && res@.skip(1) == kept(turns@, plan.remove@)
                    && is_summary_of(res@[0], content_or_empty(answer->0), summary_range(plan.summarize@))
            }),
    {
        let n = turns.len();
        let mut folds_present = false;
        for i in 0..plan.summarize.len()
            invariant
                folds_present == (present(plan.summarize@.take(i as int), n as int).len() > 0),
        {
            assert(plan.summarize@.take(i + 1).drop_last() =~= plan.summarize@.take(i as int));
            if plan.summarize[i] < n {
                folds_present = true;
            }
        }
        assert(plan.summarize@.take(plan.summarize.len() as int) =~= plan.summarize@);
        let summary = if self.config.enable_summarization && folds_present {
            match answer {
                Some(content) => Some(Self::summary_turn(plan, content)),
                None => None,
            }
        } else {
            None
        };
        proof {
            lemma_kept_len(turns@, plan.remove@);
            if summary is Some {
                lemma_summary_fits(turns@, plan.remove@, plan.summarize@);
            }
        }
        let ghost tv = turns@;
        let ghost sv = summary;
        let res = self.apply_decisions(turns, plan, summary);
        proof {
            if sv is Some {
                assert(res@.skip(1) =~= kept(tv, plan.remove@));
            } else {
                assert(res@ =~= kept(tv, plan.remove@));
            }
        }
        res
    }
}

} // verus!
