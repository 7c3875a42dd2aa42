//! The decisions of a historical backfill: whether there is anything to do, which
//! heights the index files give, the tail scan between the newest indexed block
//! and the live tip, the lake keys it reads, and what is published.
use vstd::prelude::*;
use crate::dates::{CalendarDate, utc_date_of, utc_date_from_seconds, as_triple};
use crate::registry::MatchingRule;
use crate::text::{contains_char, decimal_digits, zero_padded, append_decimal, same_text};

verus! {

/// Most blocks the tail scan may walk.
pub const MAX_UNINDEXED_BLOCKS_TO_PROCESS: u64 = 7200;

/// Most extra heights probed when looking up the start block's date.
pub const MAX_RPC_BLOCKS_TO_PROCESS: u8 = 20;

/// Prefix of the per-chain lake buckets.
pub const LAKE_BUCKET_PREFIX: &'static str = "near-lake-data-";

/// Why a backfill stops.
#[derive(Clone, Copy, Debug, PartialEq, Eq, Structural)]
pub enum BackfillError {
    /// The start block is not below the live tip.
    NothingToDo,
    /// Only `ActionAny` rules can be backfilled.
    UnsupportedRule,
    /// No block at or shortly after the start block could be dated.
    StartDateUnresolvable,
    /// The tail between the newest indexed block and the live tip is too long.
    TailTooLong,
}

/// The chain whose lake is read.
#[derive(Clone, Copy, Debug, PartialEq, Eq, Structural)]
pub enum ChainId {
    Mainnet,
    Testnet,
}

pub open spec fn chain_name(c: ChainId) -> Seq<char> {
    match c {
        ChainId::Mainnet => "mainnet"@,
        ChainId::Testnet => "testnet"@,
    }
}

/// Number of blocks between the start block and the live tip, where positive.
pub fn backfill_delta(live_tip_height: u64, start_block_height: u64) -> (r: Result<u64, BackfillError>)
    ensures
        live_tip_height > start_block_height ==> r == Ok::<u64, BackfillError>((live_tip_height - start_block_height) as u64),
        live_tip_height <= start_block_height ==> r == Err::<u64, BackfillError>(BackfillError::NothingToDo),
{
    if live_tip_height <= start_block_height {
        Err(BackfillError::NothingToDo)
    } else {
        Ok(live_tip_height - start_block_height)
    }
}

/// The account pattern an index-file backfill reads, for the rules it supports.
pub fn index_pattern(rule: &MatchingRule) -> (r: Result<String, BackfillError>)
    ensures
        match rule {
            MatchingRule::ActionAny { affected_account_id, .. } => r is Ok && r->Ok_0@ == affected_account_id@,
            _ => r == Err::<String, BackfillError>(BackfillError::UnsupportedRule),
        },
{
    match rule {
        MatchingRule::ActionAny { affected_account_id, .. } => Ok(affected_account_id.clone()),
        _ => Err(BackfillError::UnsupportedRule),
    }
}

/// Whether a pattern can name several accounts, whose heights must then be merged.
pub open spec fn pattern_needs_dedupe(pattern: Seq<char>) -> bool {
    pattern.contains('*') || pattern.contains(',')
}

pub fn needs_dedupe(pattern: &str) -> (r: bool)
    ensures
        r == pattern_needs_dedupe(pattern@),
{
    contains_char(pattern, '*') || contains_char(pattern, ',')
}

/// The fields of the JSON object in `s`, in key order, each with its value read as
/// an array of `u64` (`None` where it is not one); `None` where `s` is not a JSON object.
pub uninterp spec fn json_height_lists(s: Seq<char>) -> Option<Seq<(Seq<char>, Option<Seq<u64>>)>>;

pub open spec fn list_view(o: Option<Vec<u64>>) -> Option<Seq<u64>> {
    match o {
        Some(v) => Some(v@),
        None => None,
    }
}

pub open spec fn lists_view(v: Seq<(String, Option<Vec<u64>>)>) -> Seq<(Seq<char>, Option<Seq<u64>>)> {
    v.map_values(|p: (String, Option<Vec<u64>>)| (p.0@, list_view(p.1)))
}

/// Relies on `serde_json::from_str` into a `BTreeMap<String, serde_json::Value>` (the
/// fields of a JSON object, in key order), and on `serde_json::from_value` to read
/// each field's value as a `Vec<u64>`.
#[verifier::external_body]
fn decode_height_lists(content: &str) -> (r: Option<Vec<(String, Option<Vec<u64>>)>>)
    ensures
        match r {
            Some(v) => json_height_lists(content@) == Some(lists_view(v@)),
            None => json_height_lists(content@) is None,
        },
{
    serde_json::from_str::<std::collections::BTreeMap<String, serde_json::Value>>(content).ok().map(
        |m| m.into_iter().map(|(k, v)| (k, serde_json::from_value::<Vec<u64>>(v).ok())).collect(),
    )
}

/// The list held by the first field named `key` (none where that field holds no list).
pub open spec fn list_field(pairs: Seq<(Seq<char>, Option<Seq<u64>>)>, key: Seq<char>) -> Option<Seq<u64>>
    decreases pairs.len(),
{
    if pairs.len() == 0 {
        None
    } else if pairs[0].0 == key {
        pairs[0].1
    } else {
        list_field(pairs.drop_first(), key)
    }
}

/// The heights an index file lists; none for a file that cannot be read.
pub open spec fn file_heights(content: Seq<char>) -> Seq<u64> {
    match json_height_lists(content) {
        Some(lists) => heights_list(lists),
        None => Seq::empty(),
    }
}

/// The heights of `hs` at or above `start`, in order.
pub open spec fn at_or_above(hs: Seq<u64>, start: u64) -> Seq<u64> {
    hs.filter(|h: u64| h >= start)
}

/// The heights at or above `start` that the index files list, file after file.
pub open spec fn index_heights(files: Seq<Seq<char>>, start: u64) -> Seq<u64>
    decreases files.len(),
{
    if files.len() == 0 {
        Seq::empty()
    } else {
        index_heights(files.drop_last(), start) + at_or_above(file_heights(files.last()), start)
    }
}

pub open spec fn strictly_ascending(s: Seq<u64>) -> bool {
    forall|i: int, j: int| 0 <= i < j < s.len() ==> s[i] < s[j]
}

pub open spec fn ascending(s: Seq<u64>) -> bool {
    forall|i: int, j: int| 0 <= i < j < s.len() ==> s[i] <= s[j]
}

/// Relies on `<[u64]>::sort_unstable`: the same values, in ascending order.
#[verifier::external_body]
fn sort_heights(v: &mut Vec<u64>)
    ensures
        final(v)@.to_multiset() == old(v)@.to_multiset(),
        ascending(final(v)@),
{
    v.sort_unstable()
}

fn find_list<'a>(pairs: &'a Vec<(String, Option<Vec<u64>>)>, key: &str) -> (r: Option<&'a Vec<u64>>)
    ensures
        match r {
            Some(v) => list_field(lists_view(pairs@), key@) == Some(v@),
            None => list_field(lists_view(pairs@), key@) is None,
        },
{
    let mut i: usize = 0;
    assert(lists_view(pairs@).subrange(0, pairs@.len() as int) =~= lists_view(pairs@));
    while i < pairs.len()
        invariant
            i <= pairs@.len(),
            list_field(lists_view(pairs@), key@) == list_field(lists_view(pairs@).subrange(i as int, pairs@.len() as int), key@),
        decreases pairs@.len() - i,
    {
        let ghost rest = lists_view(pairs@).subrange(i as int, pairs@.len() as int);
        assert(rest.drop_first() =~= lists_view(pairs@).subrange(i + 1, pairs@.len() as int));
        assert(rest[0] == (pairs@[i as int].0@, list_view(pairs@[i as int].1)));
        if same_text(pairs[i].0.as_str(), key) {
            return match &pairs[i].1 {
                Some(v) => Some(v),
                None => None,
            };
        }
        i = i + 1;
    }
    None
}

/// The list named `heights` among an index file's decoded lists (none where absent).
pub open spec fn heights_list(lists: Seq<(Seq<char>, Option<Seq<u64>>)>) -> Seq<u64> {
    match list_field(lists, "heights"@) {
        Some(h) => h,
        None => Seq::empty(),
    }
}

/// The heights at or above `start_block_height` among an index file's decoded lists.
pub fn heights_from_lists(lists: &Vec<(String, Option<Vec<u64>>)>, start_block_height: u64) -> (r: Vec<u64>)
    ensures
        r@ == at_or_above(heights_list(lists_view(lists@)), start_block_height),
{
    let mut out: Vec<u64> = Vec::new();
    let hs = match find_list(lists, "heights") {
        Some(h) => h,
        None => {
            assert(at_or_above(Seq::<u64>::empty(), start_block_height) =~= Seq::<u64>::empty()) by {
                reveal(Seq::filter);
            }
            return out;
        },
    };
    let mut i: usize = 0;
    assert(out@ =~= at_or_above(hs@.subrange(0, 0), start_block_height)) by {
        reveal(Seq::filter);
    }
    while i < hs.len()
        invariant
            i <= hs@.len(),
            out@ == at_or_above(hs@.subrange(0, i as int), start_block_height),
        decreases hs@.len() - i,
    {
        proof {
            assert(hs@.subrange(0, i + 1).drop_last() =~= hs@.subrange(0, i as int));
            reveal(Seq::filter);
        }
        if hs[i] >= start_block_height {
            out.push(hs[i]);
        }
        i = i + 1;
    }
    assert(hs@.subrange(0, hs@.len() as int) =~= hs@);
    out
}

/// Appends the heights at or above `start` that one index file lists.
fn append_file_heights(out: &mut Vec<u64>, content: &str, start: u64)
    ensures
        final(out)@ == old(out)@ + at_or_above(file_heights(content@), start),
{
    let mut found = match decode_height_lists(content) {
        Some(lists) => heights_from_lists(&lists, start),
        None => {
            assert(at_or_above(Seq::<u64>::empty(), start) =~= Seq::<u64>::empty()) by {
                reveal(Seq::filter);
            }
            Vec::new()
        },
    };
    out.append(&mut found);
}

pub open spec fn strings_view(v: Seq<String>) -> Seq<Seq<char>> {
    v.map_values(|s: String| s@)
}

/// The heights at or above `start_block_height` that the index files list, file after file.
pub fn parse_blocks_from_index_files(index_files_content: &Vec<String>, start_block_height: u64) -> (r: Vec<u64>)
    ensures
        r@ == index_heights(strings_view(index_files_content@), start_block_height),
{
    let ghost files = strings_view(index_files_content@);
    let mut out: Vec<u64> = Vec::new();
    let mut i: usize = 0;
    while i < index_files_content.len()
        invariant
            i <= index_files_content@.len(),
            files == strings_view(index_files_content@),
            out@ == index_heights(files.subrange(0, i as int), start_block_height),
        decreases index_files_content@.len() - i,
    {
        proof {
            assert(files.subrange(0, i + 1).drop_last() =~= files.subrange(0, i as int));
            assert(files.subrange(0, i + 1).last() == index_files_content@[i as int]@);
        }
        append_file_heights(&mut out, index_files_content[i].as_str(), start_block_height);
        i = i + 1;
    }
    assert(files.subrange(0, index_files_content@.len() as int) =~= files);
    out
}

proof fn lemma_push_contains(s: Seq<u64>, a: u64, x: u64)
    ensures
        s.push(a).contains(x) <==> (s.contains(x) || x == a),
{
    if s.contains(x) {
        let k = choose|k: int| 0 <= k < s.len() && s[k] == x;
        assert(s.push(a)[k] == x);
    }
    if x == a {
        assert(s.push(a)[s.len() as int] == x);
    }
    if s.push(a).contains(x) && x != a {
        let k = choose|k: int| 0 <= k < s.push(a).len() && s.push(a)[k] == x;
        assert(s[k] == x);
    }
}

/// `v`'s values, each once, in ascending order.
pub fn sort_and_dedupe(v: Vec<u64>) -> (r: Vec<u64>)
    ensures
        strictly_ascending(r@),
        forall|h: u64| r@.contains(h) <==> v@.contains(h),
{
    broadcast use vstd::seq_lib::group_to_multiset_ensures;

    let mut sorted = v;
    sort_heights(&mut sorted);
    assert(forall|h: u64| sorted@.contains(h) <==> v@.contains(h)) by {
        assert(forall|h: u64| sorted@.contains(h) <==> sorted@.to_multiset().count(h) > 0);
        assert(forall|h: u64| v@.contains(h) <==> v@.to_multiset().count(h) > 0);
    }
    let mut out: Vec<u64> = Vec::new();
    let mut i: usize = 0;
    while i < sorted.len()
        invariant
            i <= sorted@.len(),
            ascending(sorted@),
            strictly_ascending(out@),
            forall|h: u64| out@.contains(h) <==> sorted@.subrange(0, i as int).contains(h),
            i > 0 ==> out@.len() > 0 && out@.last() == sorted@[i - 1],
            i == 0 ==> out@.len() == 0,
        decreases sorted@.len() - i,
    {
        let h = sorted[i];
        let ghost before = out@;
        let ghost pre = sorted@.subrange(0, i as int);
        assert(sorted@.subrange(0, i + 1) =~= pre.push(h));
        if out.len() == 0 || out[out.len() - 1] != h {
            out.push(h);
            assert(strictly_ascending(out@)) by {
                if before.len() > 0 {
                    assert(before.last() == sorted@[i - 1]);
                    assert(sorted@[i - 1] <= sorted@[i as int]);
                }
            }
            assert forall|x: u64| out@.contains(x) <==> pre.push(h).contains(x) by {
                lemma_push_contains(before, h, x);
                lemma_push_contains(pre, h, x);
            }
        } else {
            assert forall|x: u64| out@.contains(x) <==> pre.push(h).contains(x) by {
                lemma_push_contains(pre, h, x);
                assert(before[before.len() - 1] == h);
            }
        }
        i = i + 1;
    }
    assert(sorted@.subrange(0, sorted@.len() as int) =~= sorted@);
    out
}

/// The heights the index files give: those at or above the start block, merged into
/// ascending order without repeats where the pattern can name several accounts.
pub fn filter_matching_blocks_from_index_files(
    start_block_height: u64,
    rule: &MatchingRule,
    index_files_content: &Vec<String>,
) -> (r: Result<Vec<u64>, BackfillError>)
    ensures
        match rule {
            MatchingRule::ActionAny { affected_account_id, .. } => r is Ok && {
                let hs = index_heights(strings_view(index_files_content@), start_block_height);
                let v = r->Ok_0@;
                if pattern_needs_dedupe(affected_account_id@) {
                    strictly_ascending(v) && forall|h: u64| v.contains(h) <==> hs.contains(h)
                } else {
                    v == hs
                }
            },
            _ => r == Err::<Vec<u64>, BackfillError>(BackfillError::UnsupportedRule),
        },
{
    let pattern = index_pattern(rule)?;
    let heights = parse_blocks_from_index_files(index_files_content, start_block_height);
    if needs_dedupe(pattern.as_str()) {
        Ok(sort_and_dedupe(heights))
    } else {
        Ok(heights)
    }
}

/// The newest block that the index covers: the later of the last indexed height
/// and the metadata's last indexed block (an index file may appear after the
/// metadata was read). With no indexed heights the start block stands in.
pub open spec fn newest_indexed(index: Seq<u64>, start: u64, metadata_last: u64) -> u64 {
    let last = if index.len() > 0 { index.last() } else { start };
    if last > metadata_last { last } else { metadata_last }
}

pub fn newest_indexed_block(index: &Vec<u64>, start_block_height: u64, metadata_last_indexed: u64) -> (r: u64)
    ensures
        r == newest_indexed(index@, start_block_height, metadata_last_indexed),
{
    let last = if index.len() > 0 { index[index.len() - 1] } else { start_block_height };
    if last > metadata_last_indexed { last } else { metadata_last_indexed }
}

/// The walk over the blocks above the newest indexed one and below the live tip.
pub struct TailScan {
    /// First height of the walk.
    pub first: u64,
    /// The next height to examine.
    pub next: u64,
    /// The live tip: the walk stops below it.
    pub end: u64,
    /// The examined heights that matched, ascending.
    pub matched: Vec<u64>,
}

impl TailScan {
    pub open spec fn wf(&self) -> bool {
        &&& self.first <= self.next <= self.end
        &&& strictly_ascending(self.matched@)
        &&& forall|i: int| 0 <= i < self.matched@.len() ==> self.first <= #[trigger] self.matched@[i] < self.next
    }

    /// Starts the walk over `(newest_indexed, live_tip)`; refuses one longer than
    /// the limit, before any block is read.
    pub fn new(newest_indexed: u64, live_tip: u64) -> (r: Result<TailScan, BackfillError>)
        ensures
            live_tip > newest_indexed && live_tip - newest_indexed > MAX_UNINDEXED_BLOCKS_TO_PROCESS
                ==> r == Err::<TailScan, BackfillError>(BackfillError::TailTooLong),
            !(live_tip > newest_indexed && live_tip - newest_indexed > MAX_UNINDEXED_BLOCKS_TO_PROCESS) ==> r is Ok && {
                let t = r->Ok_0;
                &&& t.wf()
                &&& t.matched@.len() == 0
                &&& t.end == live_tip
                &&& t.first == t.next
                &&& t.first == (if newest_indexed < live_tip { newest_indexed + 1 } else { live_tip as int })
            },
    {
        if live_tip > newest_indexed && live_tip - newest_indexed > MAX_UNINDEXED_BLOCKS_TO_PROCESS {
            return Err(BackfillError::TailTooLong);
        }
        let first = if newest_indexed < live_tip { newest_indexed + 1 } else { live_tip };
        Ok(TailScan { first, next: first, end: live_tip, matched: Vec::new() })
    }

    /// The next height to examine, if any is left.
    pub fn next_height(&self) -> (r: Option<u64>)
        ensures
            self.next < self.end ==> r == Some(self.next),
            self.next >= self.end ==> r is None,
    {
        if self.next < self.end {
            Some(self.next)
        } else {
            None
        }
    }

    /// Records whether the block at the next height matched the rule.
    pub fn record(&mut self, matched: bool)
        requires
            old(self).wf(),
            old(self).next < old(self).end,
        ensures
            final(self).wf(),
            final(self).next == old(self).next + 1,
            final(self).first == old(self).first,
            final(self).end == old(self).end,
            final(self).matched@ == (if matched { old(self).matched@.push(old(self).next) } else { old(self).matched@ }),
    {
        if matched {
            self.matched.push(self.next);
        }
        self.next = self.next + 1;
    }
}

/// The published heights are strictly ascending: the index's heights (strictly
/// ascending, as a merged wildcard or comma pattern gives them) come first, and
/// the tail scan's matches, which lie above the newest indexed block, follow.
pub proof fn lemma_published_heights_ascending(
    index: Seq<u64>,
    tail: Seq<u64>,
    start: u64,
    metadata_last: u64,
)
    requires
        strictly_ascending(index),
        strictly_ascending(tail),
        forall|i: int| 0 <= i < tail.len() ==> #[trigger] tail[i] > newest_indexed(index, start, metadata_last),
    ensures
        strictly_ascending(index + tail),
{
    let newest = newest_indexed(index, start, metadata_last);
    let s = index + tail;
    assert forall|i: int, j: int| 0 <= i < j < s.len() implies s[i] < s[j] by {
        if j < index.len() {
        } else if i < index.len() {
            assert(s[i] == index[i]);
            assert(index[i] <= index.last());
            assert(s[j] == tail[j - index.len()]);
        } else {
            assert(s[i] == tail[i - index.len()]);
            assert(s[j] == tail[j - index.len()]);
        }
    }
}

/// A height that may be published: at or above the start block, below the live tip.
pub open spec fn in_window(h: u64, start: u64, live_tip: u64) -> bool {
    start <= h && h < live_tip
}

/// The heights published for a backfill: the index's heights, then the tail's,
/// in that order, keeping those in the window from the start block to the live tip.
pub open spec fn published(index: Seq<u64>, tail: Seq<u64>, start: u64, live_tip: u64) -> Seq<u64> {
    (index + tail).filter(|h: u64| in_window(h, start, live_tip))
}

/// The heights to publish, from the index's heights and the tail's matches.
pub fn published_heights(index: &Vec<u64>, tail: &Vec<u64>, start_block_height: u64, live_tip: u64) -> (r: Vec<u64>)
    ensures
        r@ == published(index@, tail@, start_block_height, live_tip),
        forall|i: int| 0 <= i < r@.len() ==> in_window(#[trigger] r@[i], start_block_height, live_tip),
        ascending(index@ + tail@) ==> ascending(r@),
        strictly_ascending(index@ + tail@) ==> strictly_ascending(r@),
{
    let mut all: Vec<u64> = Vec::new();
    let mut j: usize = 0;
    while j < index.len()
        invariant
            j <= index@.len(),
            all@ == index@.subrange(0, j as int),
        decreases index@.len() - j,
    {
        all.push(index[j]);
        assert(all@ =~= index@.subrange(0, j + 1));
        j = j + 1;
    }
    let mut j: usize = 0;
    assert(all@ =~= index@ + tail@.subrange(0, 0));
    while j < tail.len()
        invariant
            j <= tail@.len(),
            all@ == index@ + tail@.subrange(0, j as int),
        decreases tail@.len() - j,
    {
        all.push(tail[j]);
        assert(all@ =~= index@ + tail@.subrange(0, j + 1));
        j = j + 1;
    }
    assert(all@ =~= index@ + tail@);
    let ghost pred = |h: u64| in_window(h, start_block_height, live_tip);
    let ghost mut idx: Seq<int> = Seq::empty();
    let mut out: Vec<u64> = Vec::new();
    let mut i: usize = 0;
    assert(out@ =~= all@.subrange(0, 0).filter(pred)) by {
        reveal(Seq::filter);
    }
    while i < all.len()
        invariant
            i <= all@.len(),
            all@ == index@ + tail@,
            pred == (|h: u64| in_window(h, start_block_height, live_tip)),
            out@ == all@.subrange(0, i as int).filter(pred),
            idx.len() == out@.len(),
            forall|k: int| 0 <= k < idx.len() ==> 0 <= #[trigger] idx[k] < i && all@[idx[k]] == out@[k],
            forall|k: int, l: int| 0 <= k < l < idx.len() ==> idx[k] < idx[l],
            forall|k: int| 0 <= k < out@.len() ==> in_window(#[trigger] out@[k], start_block_height, live_tip),
        decreases all@.len() - i,
    {
        proof {
            assert(all@.subrange(0, i + 1).drop_last() =~= all@.subrange(0, i as int));
            reveal(Seq::filter);
        }
        let h = all[i];
        if start_block_height <= h && h < live_tip {
            out.push(h);
            proof {
                idx = idx.push(i as int);
            }
        }
        assert(out@ =~= all@.subrange(0, i + 1).filter(pred));
        i = i + 1;
    }
    assert(all@.subrange(0, all@.len() as int) =~= all@);
    proof {
        if ascending(index@ + tail@) {
            assert forall|k: int, l: int| 0 <= k < l < out@.len() implies out@[k] <= out@[l] by {
                assert(idx[k] < idx[l]);
                assert(all@[idx[k]] == out@[k]);
                assert(all@[idx[l]] == out@[l]);
            }
        }
        if strictly_ascending(index@ + tail@) {
            assert forall|k: int, l: int| 0 <= k < l < out@.len() implies out@[k] < out@[l] by {
                assert(idx[k] < idx[l]);
                assert(all@[idx[k]] == out@[k]);
                assert(all@[idx[l]] == out@[l]);
            }
        }
    }
    out
}

/// `"{height:012}"`.
pub open spec fn normalized_height(h: u64) -> Seq<char> {
    zero_padded(decimal_digits(h as nat), 12)
}

/// The height written with twelve digits at least, as the lake's keys have it.
pub fn normalize_block_height(block_height: u64) -> (r: String)
    ensures
        r@ == normalized_height(block_height),
{
    let mut digits = String::new();
    append_decimal(&mut digits, block_height);
    let n = digits.as_str().unicode_len();
    let mut out = String::new();
    let mut k: usize = n;
    while k < 12
        invariant
            n <= k <= 12 || (n > 12 && k == n),
            out@ == Seq::new((k - n) as nat, |i: int| '0'),
        decreases 12 - k,
    {
        out.append("0");
        proof {
            reveal_strlit("0");
        }
        assert(out@ =~= Seq::new((k + 1 - n) as nat, |i: int| '0'));
        k = k + 1;
    }
    out.append(digits.as_str());
    proof {
        assert(digits@ == Seq::<char>::empty() + decimal_digits(block_height as nat));
        if n >= 12 {
            assert(out@ =~= digits@);
        } else {
            assert(out@ =~= Seq::new((12 - n) as nat, |i: int| '0') + digits@);
        }
    }
    out
}

/// `"{height:012}/block.json"`.
pub fn block_key(block_height: u64) -> (r: String)
    ensures
        r@ == normalized_height(block_height) + "/block.json"@,
{
    let mut r = normalize_block_height(block_height);
    r.append("/block.json");
    r
}

/// `"{height:012}/shard_{shard}.json"`.
pub fn shard_key(block_height: u64, shard_id: u64) -> (r: String)
    ensures
        r@ == normalized_height(block_height) + "/shard_"@ + decimal_digits(shard_id as nat) + ".json"@,
{
    let mut r = normalize_block_height(block_height);
    r.append("/shard_");
    append_decimal(&mut r, shard_id);
    r.append(".json");
    r
}

/// The lake bucket of a chain.
pub fn lake_bucket_for_chain(chain_id: ChainId) -> (r: String)
    ensures
        r@ == "near-lake-data-"@ + chain_name(chain_id),
{
    let mut r = String::new();
    r.append(LAKE_BUCKET_PREFIX);
    match chain_id {
        ChainId::Mainnet => r.append("mainnet"),
        ChainId::Testnet => r.append("testnet"),
    }
    r
}

/// One job for the execution queue.
#[derive(Clone, Copy, Debug, PartialEq, Eq, Structural)]
pub struct ExecutionMessage {
    pub block_height: u64,
    /// Whether the executor may take the indexer's resources as provisioned.
    pub provisioned: bool,
    pub is_historical: bool,
}

/// What a backfill publishes.
pub struct Publication {
    /// Whether to register the indexer's stream and store its configuration.
    pub register_stream: bool,
    /// The first height of the batch (the start block where the batch is empty).
    pub first_block_in_batch: u64,
    /// One message per height, in order; each height is also appended to the stream.
    pub messages: Vec<ExecutionMessage>,
}

/// Whether the message for position `i` says the resources are provisioned: all
/// but those before the first height that differs from the batch's first height,
/// unless the indexer was provisioned already.
pub open spec fn provisioned_at(heights: Seq<u64>, first: u64, initially: bool, i: int) -> bool {
    initially || exists|j: int| 0 <= j <= i && #[trigger] heights[j] != first
}

/// Plans what to publish for the matched `heights` of an indexer whose start block
/// is `start_block_height` and that was (or was not) provisioned before.
pub fn plan_publication(heights: &Vec<u64>, start_block_height: u64, provisioned: bool) -> (r: Publication)
    ensures
        r.register_stream == (heights@.len() > 0),
        r.first_block_in_batch == (if heights@.len() > 0 { heights@[0] } else { start_block_height }),
        r.messages@.len() == heights@.len(),
        forall|i: int| 0 <= i < heights@.len() ==> (#[trigger] r.messages@[i]).block_height == heights@[i]
            && r.messages@[i].is_historical
            && r.messages@[i].provisioned == provisioned_at(heights@, r.first_block_in_batch, provisioned, i),
{
    let first = if heights.len() > 0 { heights[0] } else { start_block_height };
    let mut messages: Vec<ExecutionMessage> = Vec::new();
    let mut flag = provisioned;
    let mut i: usize = 0;
    while i < heights.len()
        invariant
            i <= heights@.len(),
            first == (if heights@.len() > 0 { heights@[0] } else { start_block_height }),
            messages@.len() == i,
            flag == (provisioned || exists|j: int| 0 <= j < i && #[trigger] heights@[j] != first),
            forall|k: int| 0 <= k < i ==> (#[trigger] messages@[k]).block_height == heights@[k]
                && messages@[k].is_historical
                && messages@[k].provisioned == provisioned_at(heights@, first, provisioned, k),
        decreases heights@.len() - i,
    {
        let current = heights[i];
        if current != first {
            flag = true;
        }
        assert(flag == provisioned_at(heights@, first, provisioned, i as int)) by {
            if current != first {
                assert(heights@[i as int] != first);
            }
            if provisioned_at(heights@, first, provisioned, i as int) && !provisioned && current == first {
                let j = choose|j: int| 0 <= j <= i && #[trigger] heights@[j] != first;
                assert(j < i);
            }
        }
        messages.push(ExecutionMessage { block_height: current, provisioned: flag, is_historical: true });
        i = i + 1;
    }
    Publication { register_stream: heights.len() > 0, first_block_in_batch: first, messages }
}

/// What the start-date lookup asks for next.
#[derive(Clone, Copy, Debug, PartialEq, Eq, Structural)]
pub enum ProbeStep {
    /// Look up the header of the block at this height.
    Lookup(u64),
    /// The start date is found.
    Resolved(CalendarDate),
    /// The lookup gives up.
    Failed(BackfillError),
}

/// Looks up the UTC date of the start block, moving on to the next height when a
/// block is missing (a pruned or skipped height), a limited number of times.
pub struct DateProbe {
    pub height: u64,
    pub retries: u8,
}

impl DateProbe {
    pub open spec fn wf(&self) -> bool {
        self.retries <= MAX_RPC_BLOCKS_TO_PROCESS
    }

    pub fn new(start_block_height: u64) -> (r: (DateProbe, ProbeStep))
        ensures
            r.0.wf(),
            r.0.height == start_block_height,
            r.0.retries == 0,
            r.1 == ProbeStep::Lookup(start_block_height),
    {
        (DateProbe { height: start_block_height, retries: 0 }, ProbeStep::Lookup(start_block_height))
    }

    /// Takes the looked-up block's timestamp in nanoseconds (`None`: no such block)
    /// and says what comes next.
    pub fn after_lookup(&mut self, timestamp_nanosec: Option<u64>) -> (r: ProbeStep)
        requires
            old(self).wf(),
        ensures
            match timestamp_nanosec {
                Some(ts) => (match r {
                    ProbeStep::Resolved(d) => utc_date_of((ts / 1_000_000_000) as int) == Some((d.year, d.month, d.day)),
                    ProbeStep::Failed(e) => e == BackfillError::StartDateUnresolvable
                        && utc_date_of((ts / 1_000_000_000) as int) is None,
                    _ => false,
                }) && final(self).height == old(self).height && final(self).retries == old(self).retries,
                None => if old(self).retries + 1 > MAX_RPC_BLOCKS_TO_PROCESS || old(self).height == u64::MAX {
                    r == ProbeStep::Failed(BackfillError::StartDateUnresolvable)
                } else {
                    &&& r == ProbeStep::Lookup((old(self).height + 1) as u64)
                    &&& final(self).height == old(self).height + 1
                    &&& final(self).retries == old(self).retries + 1
                    &&& final(self).wf()
                },
            },
    {
        match timestamp_nanosec {
            Some(ts) => {
                let secs = (ts / 1_000_000_000) as i64;
                match utc_date_from_seconds(secs) {
                    Some(d) => ProbeStep::Resolved(d),
                    None => ProbeStep::Failed(BackfillError::StartDateUnresolvable),
                }
            },
            None => {
                if self.retries + 1 > MAX_RPC_BLOCKS_TO_PROCESS || self.height == u64::MAX {
                    return ProbeStep::Failed(BackfillError::StartDateUnresolvable);
                }
                self.retries = self.retries + 1;
                self.height = self.height + 1;
                ProbeStep::Lookup(self.height)
            },
        }
    }
}

} // verus!
