//! The delta-lake dataset: its latest-block metadata, where an account's daily
//! index files live, how their listing is paged, and which of them a backfill reads.
use vstd::prelude::*;
use crate::dates::{CalendarDate, on_or_after, parsed_date, parse_ymd};
use crate::text::{
    split_on, join_with, trimmed, without_prefix, without_suffix, split_char, join_reversed,
    trim_spaces, strip_prefix_str, strip_suffix_str, contains_char, lemma_split_nonempty, same_text,
};

verus! {

/// Most list requests that the listing of one contract pattern may make.
pub const MAX_S3_LIST_REQUESTS: usize = 1000;

/// The bucket that holds the delta-lake dataset.
pub const DELTA_LAKE_BUCKET: &'static str = "near-delta-lake";

/// Where the latest-block metadata file sits in the delta-lake bucket.
pub const LATEST_BLOCK_METADATA_KEY: &'static str = "silver/accounts/action_receipt_actions/metadata/latest_block.json";

/// The folder under which the daily index files sit.
pub const INDEX_FILES_FOLDER: &'static str = "silver/accounts/action_receipt_actions";

/// The delta lake's note of what it has indexed so far.
#[derive(Clone, Debug)]
pub struct LatestBlockMetadata {
    pub last_indexed_block: String,
    pub first_indexed_block: String,
    pub last_indexed_block_date: String,
    pub first_indexed_block_date: String,
    pub processed_at_utc: String,
}

/// Why the metadata file could not be read.
#[derive(Clone, Copy, Debug, PartialEq, Eq, Structural)]
pub enum MetadataError {
    /// The file is not a JSON object.
    NotAnObject,
    /// A field is missing or holds no string.
    MissingField,
    /// The last indexed block does not read as a JSON `u64`.
    NotANumber,
}

/// The fields of the JSON object in `s`, in key order, each with its value where
/// that is a string (`None` otherwise); `None` where `s` is not a JSON object.
pub uninterp spec fn json_string_fields(s: Seq<char>) -> Option<Seq<(Seq<char>, Option<Seq<char>>)>>;

pub open spec fn text_view(o: Option<String>) -> Option<Seq<char>> {
    match o {
        Some(v) => Some(v@),
        None => None,
    }
}

pub open spec fn pairs_view(v: Seq<(String, Option<String>)>) -> Seq<(Seq<char>, Option<Seq<char>>)> {
    v.map_values(|p: (String, Option<String>)| (p.0@, text_view(p.1)))
}

/// Relies on `serde_json::from_str` into a `BTreeMap<String, serde_json::Value>` (the
/// fields of a JSON object, in key order), and on `Value::as_str` for each value.
#[verifier::external_body]
fn decode_string_fields(content: &str) -> (r: Option<Vec<(String, Option<String>)>>)
    ensures
        match r {
            Some(v) => json_string_fields(content@) == Some(pairs_view(v@)),
            None => json_string_fields(content@) is None,
        },
{
    serde_json::from_str::<std::collections::BTreeMap<String, serde_json::Value>>(content).ok().map(
        |m| m.into_iter().map(|(k, v)| (k, v.as_str().map(|t| t.to_string()))).collect(),
    )
}

/// The number that `serde_json::from_str::<u64>` reads from `s`, or `None` where it
/// refuses `s`.
pub uninterp spec fn json_u64(s: Seq<char>) -> Option<u64>;

/// Relies on `serde_json::from_str::<u64>`: a JSON unsigned integer that fits in 64 bits.
#[verifier::external_body]
fn decode_u64(s: &str) -> (r: Option<u64>)
    ensures
        r == json_u64(s@),
{
    serde_json::from_str::<u64>(s).ok()
}

/// The string held by the first field named `key` (none where that field holds no string).
pub open spec fn field(pairs: Seq<(Seq<char>, Option<Seq<char>>)>, key: Seq<char>) -> Option<Seq<char>>
    decreases pairs.len(),
{
    if pairs.len() == 0 {
        None
    } else if pairs[0].0 == key {
        pairs[0].1
    } else {
        field(pairs.drop_first(), key)
    }
}

/// The five metadata fields, in declaration order, where all are present.
pub open spec fn metadata_fields(pairs: Seq<(Seq<char>, Option<Seq<char>>)>) -> Option<Seq<Seq<char>>> {
    if field(pairs, "last_indexed_block"@) is Some && field(pairs, "first_indexed_block"@) is Some
        && field(pairs, "last_indexed_block_date"@) is Some && field(pairs, "first_indexed_block_date"@) is Some
        && field(pairs, "processed_at_utc"@) is Some {
        Some(seq![
            field(pairs, "last_indexed_block"@)->0,
            field(pairs, "first_indexed_block"@)->0,
            field(pairs, "last_indexed_block_date"@)->0,
            field(pairs, "first_indexed_block_date"@)->0,
            field(pairs, "processed_at_utc"@)->0,
        ])
    } else {
        None
    }
}

pub open spec fn metadata_view(m: LatestBlockMetadata) -> Seq<Seq<char>> {
    seq![
        m.last_indexed_block@,
        m.first_indexed_block@,
        m.last_indexed_block_date@,
        m.first_indexed_block_date@,
        m.processed_at_utc@,
    ]
}

fn find_field(pairs: &Vec<(String, Option<String>)>, key: &str) -> (r: Option<String>)
    ensures
        match r {
            Some(v) => field(pairs_view(pairs@), key@) == Some(v@),
            None => field(pairs_view(pairs@), key@) is None,
        },
{
    let mut i: usize = 0;
    assert(pairs_view(pairs@).subrange(0, pairs@.len() as int) =~= pairs_view(pairs@));
    while i < pairs.len()
        invariant
            i <= pairs@.len(),
            field(pairs_view(pairs@), key@) == field(pairs_view(pairs@).subrange(i as int, pairs@.len() as int), key@),
        decreases pairs@.len() - i,
    {
        let ghost rest = pairs_view(pairs@).subrange(i as int, pairs@.len() as int);
        assert(rest.drop_first() =~= pairs_view(pairs@).subrange(i + 1, pairs@.len() as int));
        assert(rest[0] == (pairs@[i as int].0@, text_view(pairs@[i as int].1)));
        if same_text(pairs[i].0.as_str(), key) {
            return match &pairs[i].1 {
                Some(v) => Some(v.clone()),
                None => None,
            };
        }
        i = i + 1;
    }
    None
}

/// An index-file listing request: `prefix` is listed; for a wildcard pattern, each
/// sub-prefix that comes back is listed in turn.
#[derive(Clone, Debug)]
pub struct ListingTarget {
    pub prefix: String,
    pub wildcard: bool,
}

pub open spec fn target_view(t: ListingTarget) -> (Seq<char>, bool) {
    (t.prefix@, t.wildcard)
}

pub open spec fn targets_view(v: Seq<ListingTarget>) -> Seq<(Seq<char>, bool)> {
    v.map_values(|t: ListingTarget| target_view(t))
}

/// The listing of each trimmed element of `pieces`.
pub open spec fn element_targets(folder: Seq<char>, pieces: Seq<Seq<char>>) -> Seq<(Seq<char>, bool)> {
    pieces.map_values(|p: Seq<char>| target_for(folder, trimmed(p)))
}

/// The storage path of an account: its dot-separated parts in reverse, joined by `/`.
pub open spec fn storage_path(account: Seq<char>) -> Seq<char> {
    join_with(split_on(account, '.').reverse(), '/')
}

/// `"{folder}/{storage path}/"`.
pub open spec fn account_prefix(folder: Seq<char>, account: Seq<char>) -> Seq<char> {
    folder + "/"@ + storage_path(account) + "/"@
}

/// The listing for one account pattern: a wildcard one lists the sub-trees of the
/// account after its leading `*.`.
pub open spec fn target_for(folder: Seq<char>, account: Seq<char>) -> (Seq<char>, bool) {
    if account.contains('*') {
        (account_prefix(folder, without_prefix(account, "*."@)), true)
    } else {
        (account_prefix(folder, account), false)
    }
}

/// The listings for a contract pattern, in order: one per trimmed element of a
/// comma list, else one for the whole pattern.
pub open spec fn targets_for(folder: Seq<char>, pattern: Seq<char>) -> Seq<(Seq<char>, bool)> {
    if pattern.contains(',') {
        element_targets(folder, split_on(pattern, ','))
    } else {
        seq![target_for(folder, pattern)]
    }
}

/// The final `/`-separated segment of a key.
pub open spec fn last_segment(key: Seq<char>) -> Seq<char> {
    split_on(key, '/').last()
}

/// Whether an index file's name gives a date on or after `start`: the name's last
/// segment, without `.json`, must read as a date. Names that do not are not index files.
pub open spec fn named_on_or_after(start: CalendarDate, key: Seq<char>) -> bool {
    match parsed_date(without_suffix(last_segment(key), ".json"@)) {
        Some(t) => on_or_after(CalendarDate { year: t.0, month: t.1, day: t.2 }, start),
        None => false,
    }
}

/// Client of the delta-lake dataset over an object-store client.
pub struct DeltaLakeClient<T> {
    pub s3_client: T,
}

impl<T> DeltaLakeClient<T> {
    pub fn new(s3_client: T) -> (r: Self)
        ensures
            r.s3_client == s3_client,
    {
        DeltaLakeClient { s3_client }
    }

    /// The latest-block metadata held by the decoded string fields of its file.
    pub fn metadata_from_fields(&self, pairs: &Vec<(String, Option<String>)>) -> (r: Result<LatestBlockMetadata, MetadataError>)
        ensures
            match metadata_fields(pairs_view(pairs@)) {
                None => r == Err::<LatestBlockMetadata, MetadataError>(MetadataError::MissingField),
                Some(f) => r is Ok && metadata_view(r->Ok_0) == f,
            },
    {
        let a = find_field(pairs, "last_indexed_block");
        let b = find_field(pairs, "first_indexed_block");
        let c = find_field(pairs, "last_indexed_block_date");
        let d = find_field(pairs, "first_indexed_block_date");
        let e = find_field(pairs, "processed_at_utc");
        match (a, b, c, d, e) {
            (Some(a), Some(b), Some(c), Some(d), Some(e)) => {
                let m = LatestBlockMetadata {
                    last_indexed_block: a,
                    first_indexed_block: b,
                    last_indexed_block_date: c,
                    first_indexed_block_date: d,
                    processed_at_utc: e,
                };
                assert(metadata_view(m) =~= metadata_fields(pairs_view(pairs@))->0);
                Ok(m)
            },
            _ => Err(MetadataError::MissingField),
        }
    }

    /// Reads the latest-block metadata from the file's text.
    pub fn parse_latest_block_metadata(&self, content: &str) -> (r: Result<LatestBlockMetadata, MetadataError>)
        ensures
            match json_string_fields(content@) {
                None => r == Err::<LatestBlockMetadata, MetadataError>(MetadataError::NotAnObject),
                Some(pairs) => match metadata_fields(pairs) {
                    None => r == Err::<LatestBlockMetadata, MetadataError>(MetadataError::MissingField),
                    Some(f) => r is Ok && metadata_view(r->Ok_0) == f,
                },
            },
    {
        match decode_string_fields(content) {
            Some(pairs) => self.metadata_from_fields(&pairs),
            None => Err(MetadataError::NotAnObject),
        }
    }

    /// The last indexed block height held by the decoded string fields of the metadata file.
    pub fn last_indexed_block_from_fields(&self, pairs: &Vec<(String, Option<String>)>) -> (r: Result<u64, MetadataError>)
        ensures
            match field(pairs_view(pairs@), "last_indexed_block"@) {
                None => r == Err::<u64, MetadataError>(MetadataError::MissingField),
                Some(v) => match json_u64(v) {
                    Some(n) => r == Ok::<u64, MetadataError>(n),
                    None => r == Err::<u64, MetadataError>(MetadataError::NotANumber),
                },
            },
    {
        match find_field(pairs, "last_indexed_block") {
            None => Err(MetadataError::MissingField),
            Some(v) => match decode_u64(v.as_str()) {
                Some(n) => Ok(n),
                None => Err(MetadataError::NotANumber),
            },
        }
    }

    /// The last indexed block height that the metadata file's text gives.
    pub fn last_indexed_block_from_metadata(&self, content: &str) -> (r: Result<u64, MetadataError>)
        ensures
            match json_string_fields(content@) {
                None => r == Err::<u64, MetadataError>(MetadataError::NotAnObject),
                Some(pairs) => match field(pairs, "last_indexed_block"@) {
                    None => r == Err::<u64, MetadataError>(MetadataError::MissingField),
                    Some(v) => match json_u64(v) {
                        Some(n) => r == Ok::<u64, MetadataError>(n),
                        None => r == Err::<u64, MetadataError>(MetadataError::NotANumber),
                    },
                },
            },
    {
        match decode_string_fields(content) {
            Some(pairs) => self.last_indexed_block_from_fields(&pairs),
            None => Err(MetadataError::NotAnObject),
        }
    }

    /// The storage path of `account`: `"a.b.c"` is stored under `"c/b/a"`.
    pub fn storage_path_for_account(&self, account: &str) -> (r: String)
        ensures
            r@ == storage_path(account@),
    {
        let folders = split_char(account, '.');
        let sep = "/";
        proof {
            reveal_strlit("/");
        }
        join_reversed(&folders, sep)
    }

    /// `"{folder}/{storage path of account}/"`.
    pub fn account_prefix(&self, folder: &str, account: &str) -> (r: String)
        ensures
            r@ == account_prefix(folder@, account@),
    {
        let mut r = folder.to_owned();
        r.append("/");
        let path = self.storage_path_for_account(account);
        r.append(path.as_str());
        r.append("/");
        r
    }

    fn target_for(&self, folder: &str, account: &str) -> (r: ListingTarget)
        ensures
            target_view(r) == target_for(folder@, account@),
    {
        if contains_char(account, '*') {
            let rest = strip_prefix_str(account, "*.");
            ListingTarget { prefix: self.account_prefix(folder, rest.as_str()), wildcard: true }
        } else {
            ListingTarget { prefix: self.account_prefix(folder, account), wildcard: false }
        }
    }

    /// The listings that find the index files of a contract pattern under `folder`:
    /// an exact account (`"a.b"`), a wildcard (`"*.b"`), or a comma list of these.
    pub fn find_index_files_by_pattern(&self, folder: &str, pattern: &str) -> (r: Vec<ListingTarget>)
        ensures
            targets_view(r@) == targets_for(folder@, pattern@),
    {
        if contains_char(pattern, ',') {
            let accounts = split_char(pattern, ',');
            let ghost pieces = accounts@.map_values(|p: String| p@);
            let mut out: Vec<ListingTarget> = Vec::new();
            let mut i: usize = 0;
            while i < accounts.len()
                invariant
                    i <= accounts@.len(),
                    pieces == accounts@.map_values(|p: String| p@),
                    targets_view(out@)
                        == element_targets(folder@, pieces.subrange(0, i as int)),
                decreases accounts@.len() - i,
            {
                let account = trim_spaces(accounts[i].as_str());
                let t = self.target_for(folder, account.as_str());
                let ghost before = out@;
                out.push(t);
                proof {
                    assert(pieces[i as int] == accounts@[i as int]@);
                    let lhs = targets_view(out@);
                    let rhs = element_targets(folder@, pieces.subrange(0, i + 1));
                    let prev = element_targets(folder@, pieces.subrange(0, i as int));
                    assert(targets_view(before) == prev);
                    assert(targets_view(before).len() == before.len());
                    assert(prev.len() == i);
                    assert(out@.len() == i + 1);
                    assert forall|j: int| 0 <= j < lhs.len() implies lhs[j] == rhs[j] by {
                        if j < i {
                            assert(out@[j] == before[j]);
                            assert(lhs[j] == target_view(out@[j]));
                            assert(lhs[j] == targets_view(before)[j]);
                            assert(rhs[j] == prev[j]);
                        } else {
                            assert(lhs[j] == target_view(out@[j]));
                            assert(rhs[j] == target_for(folder@, trimmed(pieces[j])));
                        }
                    }
                    assert(targets_view(out@)
                        =~= element_targets(folder@, pieces.subrange(0, i + 1)));
                }
                i = i + 1;
            }
            assert(pieces.subrange(0, accounts@.len() as int) =~= pieces);
            out
        } else {
            let mut out: Vec<ListingTarget> = Vec::new();
            out.push(self.target_for(folder, pattern));
            assert(targets_view(out@) =~= targets_for(folder@, pattern@));
            out
        }
    }

    /// Whether the index file `file_name` is dated on or after `start_date`.
    pub fn file_name_date_after(&self, start_date: &CalendarDate, file_name: &str) -> (r: bool)
        ensures
            r == named_on_or_after(*start_date, file_name@),
    {
        let segments = split_char(file_name, '/');
        proof {
            lemma_split_nonempty(file_name@, '/');
        }
        let last = &segments[segments.len() - 1];
        let name = strip_suffix_str(last.as_str(), ".json");
        match parse_ymd(name.as_str()) {
            Some(d) => d.is_on_or_after(start_date),
            None => false,
        }
    }

    /// The listed keys whose file names are dated on or after `start_date`, in order.
    pub fn select_index_files(&self, start_date: &CalendarDate, keys: &Vec<String>) -> (r: Vec<String>)
        ensures
            r@.map_values(|k: String| k@) == keys@.map_values(|k: String| k@).filter(
                |k: Seq<char>| named_on_or_after(*start_date, k),
            ),
    {
        let ghost ks = keys@.map_values(|k: String| k@);
        let ghost pred = |k: Seq<char>| named_on_or_after(*start_date, k);
        let mut out: Vec<String> = Vec::new();
        let mut i: usize = 0;
        while i < keys.len()
            invariant
                i <= keys@.len(),
                ks == keys@.map_values(|k: String| k@),
                pred == (|k: Seq<char>| named_on_or_after(*start_date, k)),
                out@.map_values(|k: String| k@) == ks.subrange(0, i as int).filter(pred),
            decreases keys@.len() - i,
        {
            proof {
                assert(ks.subrange(0, i + 1).drop_last() =~= ks.subrange(0, i as int));
                reveal(Seq::filter);
            }
            if self.file_name_date_after(start_date, keys[i].as_str()) {
                out.push(keys[i].clone());
                assert(out@.map_values(|k: String| k@) =~= ks.subrange(0, i + 1).filter(pred));
            } else {
                assert(out@.map_values(|k: String| k@) =~= ks.subrange(0, i + 1).filter(pred));
            }
            i = i + 1;
        }
        assert(ks.subrange(0, keys@.len() as int) =~= ks);
        out
    }
}

/// What a paged listing asks for after a page.
#[derive(Clone, Debug)]
pub enum ListingStep {
    /// Request the page after this continuation token.
    Next(String),
    /// The listing is complete.
    Done,
    /// More pages than the limit allows.
    LimitExceeded,
}

/// A paged listing in progress: the keys gathered so far and the list requests
/// made for the pattern, every page counted.
pub struct Listing {
    pub keys: Vec<String>,
    pub requests: usize,
}

impl Listing {
    pub open spec fn wf(&self) -> bool {
        self.requests <= MAX_S3_LIST_REQUESTS
    }

    /// Whether another list request may be made.
    pub open spec fn may_request(&self) -> bool {
        self.requests < MAX_S3_LIST_REQUESTS
    }

    /// The listing of a pattern's first prefix: no request made yet.
    pub fn new() -> (r: Self)
        ensures
            r.wf(),
            r.may_request(),
            r.keys@.len() == 0,
            r.requests == 0,
    {
        Listing { keys: Vec::new(), requests: 0 }
    }

    /// The listing of another prefix of a pattern that has made `requests` list
    /// requests so far; `None` where the pattern may make no more.
    pub fn resume(requests: usize) -> (r: Option<Self>)
        ensures
            requests < MAX_S3_LIST_REQUESTS <==> r is Some,
            r is Some ==> r->0.wf() && r->0.may_request() && r->0.keys@.len() == 0 && r->0.requests == requests,
    {
        if requests < MAX_S3_LIST_REQUESTS {
            Some(Listing { keys: Vec::new(), requests })
        } else {
            None
        }
    }

    /// Takes the page that one request returned (its common prefixes, its object
    /// keys and its continuation token) and says what to do next: the next page is
    /// asked for only while the pattern stays within its limit of requests.
    pub fn receive_page(&mut self, common_prefixes: Vec<String>, contents: Vec<String>, next_token: Option<String>) -> (r: ListingStep)
        requires
            old(self).may_request(),
        ensures
            final(self).keys@ == old(self).keys@ + common_prefixes@ + contents@,
            final(self).requests == old(self).requests + 1,
            final(self).wf(),
            match next_token {
                None => r is Done,
                Some(t) => if final(self).requests >= MAX_S3_LIST_REQUESTS {
                    r is LimitExceeded
                } else {
                    r is Next && r->Next_0@ == t@
                },
            },
            r is Next ==> final(self).may_request(),
    {
        let mut common_prefixes = common_prefixes;
        let mut contents = contents;
        self.keys.append(&mut common_prefixes);
        self.keys.append(&mut contents);
        self.requests = self.requests + 1;
        match next_token {
            Some(token) => {
                if self.requests >= MAX_S3_LIST_REQUESTS {
                    ListingStep::LimitExceeded
                } else {
                    ListingStep::Next(token)
                }
            },
            None => ListingStep::Done,
        }
    }
}

} // verus!
