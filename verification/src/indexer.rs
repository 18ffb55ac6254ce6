//! The orchestrator: which workers to start, from where, and which
//! endpoints to promote once their chain can be read.

use crate::config::IndexerConfig;
use crate::models::{as_unsigned, to_unsigned};
use std::collections::BTreeMap;
use vstd::prelude::*;

verus! {

/// The seconds between two polls of the endpoints whose chain could not
/// be read.
pub const POLL_SECONDS: u64 = 120;

/// The configured start height that stands for none.
pub const NO_START_HEIGHT: i64 = -1;

/// The start height that a configured number stands for.
pub open spec fn start_height(configured: i64) -> Option<u64> {
    if configured == NO_START_HEIGHT {
        None
    } else {
        Some(as_unsigned(configured) as u64)
    }
}

/// The chains that are indexed and where each of them starts.
#[derive(Debug)]
pub struct Indexer {
    /// The active chains, each once, in the order in which their
    /// endpoints are configured.
    pub chain_ids: Vec<u64>,
    /// The start height of each chain; `None` where the chain resumes
    /// from what analytics has recorded.
    pub indexer_start_heights: BTreeMap<u64, Option<u64>>,
}

/// An endpoint whose chain has become readable.
#[derive(Debug)]
pub struct Promotion {
    pub endpoint: String,
    pub chain_id: u64,
}

/// The start heights by chain that the first `n` endpoints give: each
/// endpoint whose chain could be read gives that chain the start height
/// that is configured at the endpoint's own position. Where two
/// endpoints report one chain, the later one decides.
pub open spec fn heights_by_chain(readings: Seq<Option<u64>>, configured: Seq<i64>, n: int) -> Map<
    u64,
    Option<u64>,
>
    decreases n,
{
    if n <= 0 {
        Map::empty()
    } else {
        let before = heights_by_chain(readings, configured, n - 1);
        match readings[n - 1] {
            Some(chain_id) => before.insert(chain_id, start_height(configured[n - 1])),
            None => before,
        }
    }
}

/// The chains that the first `n` endpoints report, each once, in the
/// order in which they are first reported.
pub open spec fn active_chains(readings: Seq<Option<u64>>, n: int) -> Seq<u64>
    decreases n,
{
    if n <= 0 {
        Seq::empty()
    } else {
        let before = active_chains(readings, n - 1);
        match readings[n - 1] {
            Some(chain_id) => if before.contains(chain_id) {
                before
            } else {
                before.push(chain_id)
            },
            None => before,
        }
    }
}

/// Every endpoint whose chain could be read has a configured start
/// height at its position.
pub open spec fn heights_cover(readings: Seq<Option<u64>>, configured: Seq<i64>) -> bool {
    forall|i: int| 0 <= i < readings.len() && (#[trigger] readings[i]) is Some ==> i < configured.len()
}

/// The active chains are exactly the chains that have a start height,
/// and none is listed twice.
pub proof fn lemma_active_chains(readings: Seq<Option<u64>>, configured: Seq<i64>, n: int)
    requires
        0 <= n <= readings.len(),
    ensures
        active_chains(readings, n).no_duplicates(),
        forall|c: u64|
            active_chains(readings, n).contains(c) <==> #[trigger] heights_by_chain(
                readings,
                configured,
                n,
            ).dom().contains(c),
        forall|c: u64|
            active_chains(readings, n).contains(c) <==> exists|i: int|
                0 <= i < n && #[trigger] readings[i] == Some(c),
    decreases n,
{
    if n > 0 {
        lemma_active_chains(readings, configured, n - 1);
        let before = active_chains(readings, n - 1);
        let after = active_chains(readings, n);
        let held = heights_by_chain(readings, configured, n - 1);
        let holds = heights_by_chain(readings, configured, n);
        match readings[n - 1] {
            Some(chain_id) => {
                assert(holds == held.insert(chain_id, start_height(configured[n - 1])));
                assert forall|c: u64| after.contains(c) <==> #[trigger] holds.dom().contains(
                    c,
                ) by {
                    assert(before.contains(c) <==> held.dom().contains(c));
                    if before.contains(chain_id) {
                        assert(after == before);
                    } else {
                        assert(after == before.push(chain_id));
                        assert(after[before.len() as int] == chain_id);
                        if before.contains(c) {
                            let j = choose|j: int| 0 <= j < before.len() && before[j] == c;
                            assert(after[j] == c);
                        }
                        if after.contains(c) && c != chain_id {
                            let j = choose|j: int| 0 <= j < after.len() && after[j] == c;
                            assert(before[j] == c);
                        }
                    }
                }
                if !before.contains(chain_id) {
                    assert(after == before.push(chain_id));
                    assert(after[before.len() as int] == chain_id);
                    assert forall|c: u64| after.contains(c) <==> (before.contains(c) || c
                        == chain_id) by {
                        if before.contains(c) {
                            let j = choose|j: int| 0 <= j < before.len() && before[j] == c;
                            assert(after[j] == c);
                        }
                    }
                }
                assert forall|c: u64| after.contains(c) implies exists|i: int|
                    0 <= i < n && #[trigger] readings[i] == Some(c) by {
                    if c == chain_id {
                        assert(readings[n - 1] == Some(c));
                    } else {
                        let i = choose|i: int| 0 <= i < n - 1 && #[trigger] readings[i] == Some(c);
                        assert(readings[i] == Some(c));
                    }
                }
                assert forall|c: u64|
                    (exists|i: int|
                        0 <= i < n && #[trigger] readings[i] == Some(c)) implies after.contains(
                    c,
                ) by {
                    let i = choose|i: int| 0 <= i < n && #[trigger] readings[i] == Some(c);
                    if i < n - 1 {
                        assert(readings[i] == Some(c));
                    }
                }
            },
            None => {
                assert(holds == held);
                assert forall|c: u64| after.contains(c) <==> #[trigger] holds.dom().contains(
                    c,
                ) by {
                    assert(before.contains(c) <==> held.dom().contains(c));
                }
                assert forall|c: u64|
                    (exists|i: int|
                        0 <= i < n && #[trigger] readings[i] == Some(c)) implies after.contains(
                    c,
                ) by {
                    let i = choose|i: int| 0 <= i < n && #[trigger] readings[i] == Some(c);
                    assert(i < n - 1);
                    assert(readings[i] == Some(c));
                }
            },
        }
    }
}

/// A chain starts at the height that is configured for its endpoint:
/// for the last endpoint that reports the chain, the chain's start
/// height is the one at that endpoint's position.
pub proof fn lemma_heights_follow_endpoints(
    readings: Seq<Option<u64>>,
    configured: Seq<i64>,
    n: int,
    i: int,
)
    requires
        0 <= i < n <= readings.len(),
        readings[i] is Some,
        forall|j: int| i < j < n ==> #[trigger] readings[j] != readings[i],
    ensures
        heights_by_chain(readings, configured, n).dom().contains(readings[i]->0),
        heights_by_chain(readings, configured, n)[readings[i]->0] == start_height(configured[i]),
    decreases n,
{
    if i < n - 1 {
        lemma_heights_follow_endpoints(readings, configured, n - 1, i);
        assert(readings[n - 1] != readings[i]);
    }
}

impl Indexer {
    /// Every listed chain has a start height, and none is listed twice.
    pub open spec fn wf(&self) -> bool {
        &&& self.chain_ids@.no_duplicates()
        &&& forall|i: int|
            0 <= i < self.chain_ids.len() ==> self.indexer_start_heights@.dom().contains(
                #[trigger] self.chain_ids[i],
            )
    }

    /// Sets the orchestrator up from the configuration and from what the
    /// endpoints report: `readings` holds, for each configured endpoint
    /// in order, its chain id where that could be read. Every chain that
    /// was read is listed once and starts at the height that is
    /// configured at the position of its endpoint, or resumes from
    /// analytics where that height is `-1`.
    pub fn new(config: &IndexerConfig, readings: &Vec<Option<u64>>) -> (indexer: Indexer)
        requires
            heights_cover(readings@, config.indexer_start_heights@),
        ensures
            indexer.wf(),
            indexer.chain_ids@ == active_chains(readings@, readings.len() as int),
            indexer.indexer_start_heights@ == heights_by_chain(
                readings@,
                config.indexer_start_heights@,
                readings.len() as int,
            ),
    {
        broadcast use vstd::std_specs::btree::group_btree_axioms;

        let ghost configured = config.indexer_start_heights@;
        let mut chain_ids: Vec<u64> = Vec::new();
        let mut heights: BTreeMap<u64, Option<u64>> = BTreeMap::new();
        let mut i: usize = 0;
        while i < readings.len()
            invariant
                i <= readings.len(),
                configured == config.indexer_start_heights@,
                heights_cover(readings@, configured),
                chain_ids@ == active_chains(readings@, i as int),
                heights@ == heights_by_chain(readings@, configured, i as int),
            decreases readings.len() - i,
        {
            proof {
                lemma_active_chains(readings@, configured, i as int);
            }
            match readings[i] {
                Some(chain_id) => {
                    let height: i64 = config.indexer_start_heights[i];
                    let start = if height == NO_START_HEIGHT {
                        None
                    } else {
                        Some(to_unsigned(height))
                    };
                    if !heights.contains_key(&chain_id) {
                        chain_ids.push(chain_id);
                    }
                    heights.insert(chain_id, start);
                },
                None => {},
            }
            i = i + 1;
        }
        proof {
            lemma_active_chains(readings@, configured, readings.len() as int);
            assert forall|j: int| 0 <= j < chain_ids.len() implies heights@.dom().contains(
                #[trigger] chain_ids[j],
            ) by {
                assert(chain_ids@.contains(chain_ids[j]));
            }
        }
        Indexer { chain_ids, indexer_start_heights: heights }
    }

    /// The workers to start: one per chain, with its start height.
    pub fn bootstrap(&self) -> (workers: Vec<(u64, Option<u64>)>)
        requires
            self.wf(),
        ensures
            workers.len() == self.chain_ids.len(),
            forall|i: int|
                0 <= i < workers.len() ==> #[trigger] workers[i] == (
                    self.chain_ids[i],
                    self.indexer_start_heights@[self.chain_ids[i]],
                ),
    {
        broadcast use vstd::std_specs::btree::group_btree_axioms;

        let mut workers: Vec<(u64, Option<u64>)> = Vec::new();
        let mut i: usize = 0;
        while i < self.chain_ids.len()
            invariant
                i <= self.chain_ids.len(),
                self.wf(),
                workers.len() == i,
                forall|j: int|
                    0 <= j < i ==> #[trigger] workers[j] == (
                        self.chain_ids[j],
                        self.indexer_start_heights@[self.chain_ids[j]],
                    ),
            decreases self.chain_ids.len() - i,
        {
            let chain_id: u64 = self.chain_ids[i];
            assert(self.indexer_start_heights@.dom().contains(self.chain_ids[i as int]));
            let start: Option<u64> = match self.indexer_start_heights.get(&chain_id) {
                Some(height) => *height,
                None => None,
            };
            workers.push((chain_id, start));
            i = i + 1;
        }
        workers
    }

    /// The workers to start where no start heights are kept: one per
    /// chain, in the chains' order.
    pub fn run(&self) -> (workers: Vec<u64>)
        ensures
            workers@ == self.chain_ids@,
    {
        let mut workers: Vec<u64> = Vec::new();
        let mut i: usize = 0;
        while i < self.chain_ids.len()
            invariant
                i <= self.chain_ids.len(),
                workers@ == self.chain_ids@.subrange(0, i as int),
            decreases self.chain_ids.len() - i,
        {
            workers.push(self.chain_ids[i]);
            proof {
                assert(self.chain_ids@.subrange(0, i + 1) =~= self.chain_ids@.subrange(
                    0,
                    i as int,
                ).push(self.chain_ids[i as int]));
            }
            i = i + 1;
        }
        proof {
            assert(self.chain_ids@.subrange(0, self.chain_ids.len() as int) =~= self.chain_ids@);
        }
        workers
    }

    /// One poll of the endpoints whose chain could not be read.
    /// `readings` holds, for each endpoint in order, its chain id where
    /// that could now be read. Returns the endpoints to promote, each to
    /// get a worker that resumes from what analytics has recorded, and
    /// the endpoints that stay behind for the next poll.
    pub fn poll_inactive_providers(
        endpoints: &Vec<String>,
        readings: &Vec<Option<u64>>,
    ) -> (polled: (Vec<Promotion>, Vec<String>))
        requires
            readings.len() == endpoints.len(),
        ensures
            promotions_of(polled.0@) == promoted(
                addresses(endpoints@),
                readings@,
                endpoints.len() as int,
            ),
            addresses(polled.1@) == left_behind(
                addresses(endpoints@),
                readings@,
                endpoints.len() as int,
            ),
    {
        let ghost names = addresses(endpoints@);
        let mut up: Vec<Promotion> = Vec::new();
        let mut down: Vec<String> = Vec::new();
        let mut i: usize = 0;
        assert(promotions_of(up@) =~= promoted(names, readings@, 0));
        assert(addresses(down@) =~= left_behind(names, readings@, 0));
        while i < endpoints.len()
            invariant
                i <= endpoints.len(),
                readings.len() == endpoints.len(),
                names == addresses(endpoints@),
                promotions_of(up@) == promoted(names, readings@, i as int),
                addresses(down@) == left_behind(names, readings@, i as int),
            decreases endpoints.len() - i,
        {
            let ghost up_before = promotions_of(up@);
            let ghost down_before = addresses(down@);
            match readings[i] {
                Some(chain_id) => {
                    up.push(Promotion { endpoint: endpoints[i].clone(), chain_id });
                    assert(promotions_of(up@) =~= up_before.push((names[i as int], chain_id)));
                },
                None => {
                    down.push(endpoints[i].clone());
                    assert(addresses(down@) =~= down_before.push(names[i as int]));
                },
            }
            i = i + 1;
        }
        (up, down)
    }
}

/// The addresses of a list of endpoints.
pub open spec fn addresses(endpoints: Seq<String>) -> Seq<Seq<char>> {
    Seq::new(endpoints.len(), |i: int| endpoints[i]@)
}

/// The promotions as mathematical values.
pub open spec fn promotions_of(list: Seq<Promotion>) -> Seq<(Seq<char>, u64)> {
    Seq::new(list.len(), |i: int| (list[i].endpoint@, list[i].chain_id))
}

/// Of the first `n` endpoints, those whose chain could be read, each
/// with its chain id, in the endpoints' order.
pub open spec fn promoted(endpoints: Seq<Seq<char>>, readings: Seq<Option<u64>>, n: int) -> Seq<
    (Seq<char>, u64),
>
    decreases n,
{
    if n <= 0 {
        Seq::empty()
    } else {
        let before = promoted(endpoints, readings, n - 1);
        match readings[n - 1] {
            Some(chain_id) => before.push((endpoints[n - 1], chain_id)),
            None => before,
        }
    }
}

/// Of the first `n` endpoints, those whose chain could not be read, in
/// the endpoints' order.
pub open spec fn left_behind(endpoints: Seq<Seq<char>>, readings: Seq<Option<u64>>, n: int) -> Seq<
    Seq<char>,
>
    decreases n,
{
    if n <= 0 {
        Seq::empty()
    } else {
        let before = left_behind(endpoints, readings, n - 1);
        match readings[n - 1] {
            Some(_) => before,
            None => before.push(endpoints[n - 1]),
        }
    }
}

/// Every endpoint is either promoted or left behind.
pub proof fn lemma_poll_keeps_all(endpoints: Seq<Seq<char>>, readings: Seq<Option<u64>>, n: int)
    requires
        0 <= n,
    ensures
        promoted(endpoints, readings, n).len() + left_behind(endpoints, readings, n).len() == n,
    decreases n,
{
    if n > 0 {
        lemma_poll_keeps_all(endpoints, readings, n - 1);
    }
}

} // verus!
