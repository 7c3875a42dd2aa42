//! Indexer configurations as the registry supplies them.
use vstd::prelude::*;

verus! {

/// The execution outcome a rule asks for.
#[derive(Clone, Copy, Debug, PartialEq, Eq, Structural)]
pub enum Status {
    Any,
    Success,
    Fail,
}

/// What an indexer matches on chain.
#[derive(Clone, Debug)]
pub enum MatchingRule {
    /// Any action whose receipt touches an account matching `affected_account_id`
    /// (an exact account, `*.suffix`, or a comma-separated list of these).
    ActionAny { affected_account_id: String, status: Status },
    /// A function call to `affected_account_id`'s `function`.
    ActionFunctionCall { affected_account_id: String, status: Status, function: String },
    /// An event emitted by `contract_account_id`.
    Event { contract_account_id: String, standard: String, version: String, event: String },
}

/// One indexer's configuration, as of one registry version.
#[derive(Clone, Debug)]
pub struct IndexerConfig {
    pub account_id: String,
    pub function_name: String,
    pub code: String,
    pub start_block_height: Option<u64>,
    pub schema: Option<String>,
    pub rule: MatchingRule,
    pub updated_at_block_height: Option<u64>,
    pub created_at_block_height: u64,
}

/// `"{account}/{function}"`.
pub open spec fn full_name(account_id: Seq<char>, function_name: Seq<char>) -> Seq<char> {
    account_id + "/"@ + function_name
}

/// `"{account}/{function}:block_stream"`.
pub open spec fn block_stream_key(account_id: Seq<char>, function_name: Seq<char>) -> Seq<char> {
    full_name(account_id, function_name) + ":block_stream"@
}

/// `"{account}/{function}:historical_storage"`: where a backfill stores the configuration it ran with.
pub open spec fn historical_storage_key(account_id: Seq<char>, function_name: Seq<char>) -> Seq<char> {
    full_name(account_id, function_name) + ":historical_storage"@
}

/// The registry version of a configuration: the height of its last update, else of its creation.
pub open spec fn registry_version(updated: Option<u64>, created: u64) -> u64 {
    match updated {
        Some(u) => u,
        None => created,
    }
}

/// Builds `"{account_id}/{function_name}"`.
pub fn make_full_name(account_id: &String, function_name: &String) -> (r: String)
    ensures
        r@ == full_name(account_id@, function_name@),
{
    let mut r = account_id.clone();
    r.append("/");
    r.append(function_name.as_str());
    r
}

/// Builds `"{account_id}/{function_name}:block_stream"`.
pub fn make_block_stream_key(account_id: &String, function_name: &String) -> (r: String)
    ensures
        r@ == block_stream_key(account_id@, function_name@),
{
    let mut r = make_full_name(account_id, function_name);
    r.append(":block_stream");
    r
}

impl IndexerConfig {
    pub fn get_full_name(&self) -> (r: String)
        ensures
            r@ == full_name(self.account_id@, self.function_name@),
    {
        make_full_name(&self.account_id, &self.function_name)
    }

    pub fn get_redis_stream(&self) -> (r: String)
        ensures
            r@ == block_stream_key(self.account_id@, self.function_name@),
    {
        make_block_stream_key(&self.account_id, &self.function_name)
    }

    pub fn get_historical_storage_key(&self) -> (r: String)
        ensures
            r@ == historical_storage_key(self.account_id@, self.function_name@),
    {
        let mut r = make_full_name(&self.account_id, &self.function_name);
        r.append(":historical_storage");
        r
    }

    pub fn get_registry_version(&self) -> (r: u64)
        ensures
            r == registry_version(self.updated_at_block_height, self.created_at_block_height),
    {
        match self.updated_at_block_height {
            Some(u) => u,
            None => self.created_at_block_height,
        }
    }
}

} // verus!
