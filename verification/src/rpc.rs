//! JSON-RPC: the requests that the bridge makes, and what the replies mean.

use crate::abi::calldata;
use crate::intent::DispatchIntent;
use crate::json::{
    add_member, array_value, no_members, object_value, singleton_value, string_value, text_array,
    write_text,
};
use crate::quantity::{hex_quantity, parse_hex_u64, HexError, NumberError};
use crate::tone::RpcLog;
use crate::topics::TopicTable;
use serde_json::Value;
#[allow(unused_imports)]
use crate::{abi, json, quantity};
#[allow(unused_imports)]
use crate::json::JsonTree;
use vstd::prelude::*;

verus! {

/// A request to the chain.
#[derive(Debug)]
pub struct JsonRpcRequest {
    /// Protocol version.
    pub jsonrpc: &'static str,
    /// Method.
    pub method: &'static str,
    /// Parameters.
    pub params: Value,
    /// Identifier.
    pub id: u64,
}

/// A reply from the chain.
#[derive(Debug)]
pub struct JsonRpcResponse<T> {
    /// Protocol version.
    pub jsonrpc: Option<String>,
    /// What was asked for.
    pub result: Option<T>,
    /// What went wrong.
    pub error: Option<Value>,
    /// Identifier.
    pub id: Option<u64>,
}

/// Why a reply is of no use.
#[derive(Debug, Clone)]
pub enum RpcError {
    /// The chain reported this error.
    Reported(String),
    /// A reply to a transaction without its hash.
    MissingTxHash,
    /// A reply about the head without its number.
    MissingBlockNumber,
    /// The number of the head cannot be read.
    Number(HexError),
}

impl RpcError {
    /// The message for logs.
    pub fn message(&self) -> (r: String)
        ensures
            match *self {
                RpcError::Reported(text) => r@ == "rpc error: "@ + text@,
                RpcError::MissingTxHash => r@ == "missing tx hash"@,
                RpcError::MissingBlockNumber => r@ == "missing block number"@,
                RpcError::Number(_) => r@ == "parse u64 from hex"@,
            },
    {
        match self {
            RpcError::Reported(text) => String::from_str("rpc error: ").concat(text.as_str()),
            RpcError::MissingTxHash => String::from_str("missing tx hash"),
            RpcError::MissingBlockNumber => String::from_str("missing block number"),
            RpcError::Number(e) => e.message(),
        }
    }

    /// What is behind it, where something is.
    pub fn cause(&self) -> (r: Option<NumberError>)
        ensures
            r == match *self {
                RpcError::Number(HexError::NotU64(e)) => Some(e),
                _ => None,
            },
    {
        match self {
            RpcError::Number(e) => Some(e.cause()),
            _ => None,
        }
    }
}

/// A request with this method, these parameters and this identifier.
pub open spec fn is_request(
    r: JsonRpcRequest,
    method: Seq<char>,
    params: JsonTree,
    id: u64,
) -> bool {
    &&& r.jsonrpc@ == "2.0"@
    &&& r.method@ == method
    &&& json::content(r.params) == params
    &&& r.id == id
}

/// The failure that an error in a reply stands for: the error's text.
pub open spec fn reports(e: RpcError, error: Value) -> bool {
    e matches RpcError::Reported(text) && text@ == json::compact(
        json::content(error),
    )
}

/// The log filter: a range of blocks, an address, and a choice of first topics.
pub open spec fn filter_tree(
    from_block: u64,
    to_block: u64,
    address: Seq<char>,
    topics: Seq<Seq<char>>,
) -> JsonTree {
    JsonTree::Object(
        map![
            "fromBlock"@ => JsonTree::Text(
                quantity::quantity_text(from_block),
            ),
            "toBlock"@ => JsonTree::Text(quantity::quantity_text(to_block)),
            "address"@ => JsonTree::Text(address),
            "topics"@ => JsonTree::Array(
                seq![JsonTree::Array(json::texts(topics))],
            ),
        ],
    )
}

/// A transaction: sender, recipient, call data.
pub open spec fn transaction_tree(
    from: Seq<char>,
    to: Seq<char>,
    data: Seq<char>,
) -> JsonTree {
    JsonTree::Object(
        map![
            "from"@ => JsonTree::Text(from),
            "to"@ => JsonTree::Text(to),
            "data"@ => JsonTree::Text(data),
        ],
    )
}

/// Asks for the number of the head.
pub fn block_number_request() -> (r: JsonRpcRequest)
    ensures
        is_request(
            r,
            "eth_blockNumber"@,
            JsonTree::Array(Seq::<JsonTree>::empty()),
            1,
        ),
        r.jsonrpc@ == "2.0"@,
        r.method@ == "eth_blockNumber"@,
        r.id == 1,
        json::content(r.params) == JsonTree::Array(Seq::<JsonTree>::empty()),
{
    let none: Vec<Value> = Vec::new();
    assert(json::contents(none@) =~= Seq::<JsonTree>::empty());
    JsonRpcRequest { jsonrpc: "2.0", method: "eth_blockNumber", params: array_value(none), id: 1 }
}

/// Asks for the log entries of a range of blocks that the contract emitted and
/// whose first topic is in the table.
pub fn logs_request(
    contract: &str,
    from_block: u64,
    to_block: u64,
    topics: &TopicTable,
) -> (r: JsonRpcRequest)
    ensures
        is_request(
            r,
            "eth_getLogs"@,
            JsonTree::Array(
                seq![filter_tree(from_block, to_block, contract@, topics.topics())],
            ),
            2,
        ),
        r.jsonrpc@ == "2.0"@,
        r.method@ == "eth_getLogs"@,
        r.id == 2,
        json::content(r.params) == JsonTree::Array(
            seq![filter_tree(from_block, to_block, contract@, topics.topics())],
        ),
{
    let mut first: Vec<String> = Vec::new();
    let mut i: usize = 0;
    while i < topics.by_hash.len()
        invariant
            i <= topics.by_hash@.len(),
            json::string_views(first@) == topics.topics().take(i as int),
        decreases topics.by_hash@.len() - i,
    {
        let ghost before = json::string_views(first@);
        first.push(String::from_str(topics.by_hash[i].0.as_str()));
        i = i + 1;
        assert(json::string_views(first@) =~= before.push(topics.by_hash@[i - 1].0@));
        assert(json::string_views(first@) =~= topics.topics().take(i as int));
    }
    assert(json::string_views(first@) =~= topics.topics());
    let from_text = hex_quantity(from_block);
    let to_text = hex_quantity(to_block);
    proof {
        reveal_strlit("fromBlock");
        reveal_strlit("toBlock");
        reveal_strlit("address");
        reveal_strlit("topics");
        assert("fromBlock"@.len() == 9 && "toBlock"@.len() == 7 && "address"@.len() == 7
            && "topics"@.len() == 6);
        assert("toBlock"@[0] != "address"@[0]);
    }
    let mut filter = no_members();
    add_member(&mut filter, "fromBlock", string_value(from_text.as_str()));
    add_member(&mut filter, "toBlock", string_value(to_text.as_str()));
    add_member(&mut filter, "address", string_value(contract));
    add_member(&mut filter, "topics", singleton_value(text_array(&first)));
    let params = singleton_value(object_value(filter));
    JsonRpcRequest { jsonrpc: "2.0", method: "eth_getLogs", params, id: 2 }
}

/// Asks the chain to sign and send the call that an intent makes.
pub fn dispatch_request(sender: &str, contract: &str, intent: &DispatchIntent) -> (r:
    JsonRpcRequest)
    requires
        abi::encodable(intent@),
    ensures
        is_request(
            r,
            "eth_sendTransaction"@,
            JsonTree::Array(
                seq![transaction_tree(sender@, contract@, abi::calldata_text(intent@))],
            ),
            1,
        ),
        r.jsonrpc@ == "2.0"@,
        r.method@ == "eth_sendTransaction"@,
        r.id == 1,
        json::content(r.params) == JsonTree::Array(
            seq![transaction_tree(sender@, contract@, abi::calldata_text(intent@))],
        ),
{
    let data = calldata(intent);
    proof {
        reveal_strlit("from");
        reveal_strlit("to");
        reveal_strlit("data");
        assert("from"@.len() == 4 && "to"@.len() == 2 && "data"@.len() == 4);
        assert("from"@[0] != "data"@[0]);
    }
    let mut transaction = no_members();
    add_member(&mut transaction, "from", string_value(sender));
    add_member(&mut transaction, "to", string_value(contract));
    add_member(&mut transaction, "data", string_value(data.as_str()));
    let params = singleton_value(object_value(transaction));
    JsonRpcRequest { jsonrpc: "2.0", method: "eth_sendTransaction", params, id: 1 }
}

/// The failure that an error in a reply stands for.
fn reported(error: &Value) -> (r: RpcError)
    ensures
        reports(r, *error),
{
    RpcError::Reported(write_text(error).unwrap())
}

/// The number of the head, from the reply.
pub fn block_number_from(resp: JsonRpcResponse<String>) -> (r: Result<u64, RpcError>)
    ensures
        match (resp.error, resp.result) {
            (Some(error), _) => r matches Err(e) && reports(e, error),
            (None, None) => r == Err::<u64, RpcError>(RpcError::MissingBlockNumber),
            (None, Some(number)) => match quantity::unsigned_result(
                quantity::stripped(number@),
                16,
            ) {
                Ok(n) => r == Ok::<u64, RpcError>(n),
                Err(e) => r == Err::<u64, RpcError>(RpcError::Number(HexError::NotU64(e))),
            },
        },
        resp.error matches Some(error) ==> (r matches Err(RpcError::Reported(text)) && text@
            == json::compact(json::content(error))),
{
    if let Some(error) = resp.error {
        return Err(reported(&error));
    }
    match resp.result {
        Some(number) => match parse_hex_u64(number.as_str()) {
            Ok(n) => Ok(n),
            Err(e) => Err(RpcError::Number(e)),
        },
        None => Err(RpcError::MissingBlockNumber),
    }
}

/// The log entries, from the reply; none where the reply has no result.
pub fn logs_from(resp: JsonRpcResponse<Vec<RpcLog>>) -> (r: Result<Vec<RpcLog>, RpcError>)
    ensures
        match (resp.error, resp.result) {
            (Some(error), _) => r matches Err(e) && reports(e, error),
            (None, None) => r matches Ok(logs) && logs@.len() == 0,
            (None, Some(logs)) => r == Ok::<Vec<RpcLog>, RpcError>(logs),
        },
        resp.error matches Some(error) ==> (r matches Err(RpcError::Reported(text)) && text@
            == json::compact(json::content(error))),
{
    if let Some(error) = resp.error {
        return Err(reported(&error));
    }
    match resp.result {
        Some(logs) => Ok(logs),
        None => Ok(Vec::new()),
    }
}

/// The hash of a transaction, from the reply.
pub fn tx_hash_from(resp: JsonRpcResponse<String>) -> (r: Result<String, RpcError>)
    ensures
        match (resp.error, resp.result) {
            (Some(error), _) => r matches Err(e) && reports(e, error),
            (None, None) => r == Err::<String, RpcError>(RpcError::MissingTxHash),
            (None, Some(hash)) => r == Ok::<String, RpcError>(hash),
        },
        resp.error matches Some(error) ==> (r matches Err(RpcError::Reported(text)) && text@
            == json::compact(json::content(error))),
{
    if let Some(error) = resp.error {
        return Err(reported(&error));
    }
    match resp.result {
        Some(hash) => Ok(hash),
        None => Err(RpcError::MissingTxHash),
    }
}

/// The filter asks for the topics that the table knows, and no others.
pub proof fn law_filter_asks_for_known_topics(topics: TopicTable, topic: Seq<char>)
    ensures
        topics.topics().contains(topic) <==> topics@.contains_key(topic),
{
    let entries = topics.entries();
    if topics.topics().contains(topic) {
        let i = choose|i: int| 0 <= i < topics.topics().len() && topics.topics()[i] == topic;
        assert(entries[i].0 == topic);
    }
    if topics@.contains_key(topic) {
        let i = choose|i: int| 0 <= i < entries.len() && (#[trigger] entries[i]).0 == topic;
        assert(topics.topics()[i] == topic);
    }
}

/// The log filter holds the first and the last block as chain quantities, the
/// contract's address, and one position of topics with every topic given, in
/// order; and nothing more.
pub proof fn law_filter_by_members(
    from_block: u64,
    to_block: u64,
    address: Seq<char>,
    topics: Seq<Seq<char>>,
)
    ensures
        match filter_tree(from_block, to_block, address, topics) {
            JsonTree::Object(members) => {
                &&& members.dom() == set!["fromBlock"@, "toBlock"@, "address"@, "topics"@]
                &&& members["fromBlock"@] == JsonTree::Text(
                    seq!['0', 'x'] + quantity::number_text(from_block as nat, 16),
                )
                &&& members["toBlock"@] == JsonTree::Text(
                    seq!['0', 'x'] + quantity::number_text(to_block as nat, 16),
                )
                &&& members["address"@] == JsonTree::Text(address)
                &&& match members["topics"@] {
                    JsonTree::Array(positions) => positions.len() == 1 && match positions[0] {
                        JsonTree::Array(choices) => {
                            &&& choices.len() == topics.len()
                            &&& forall|i: int|
                                0 <= i < topics.len() ==> #[trigger] choices[i] == JsonTree::Text(
                                    topics[i],
                                )
                        },
                        _ => false,
                    },
                    _ => false,
                }
            },
            _ => false,
        },
{
    reveal_strlit("fromBlock");
    reveal_strlit("toBlock");
    reveal_strlit("address");
    reveal_strlit("topics");
    assert("fromBlock"@.len() == 9 && "toBlock"@.len() == 7 && "address"@.len() == 7
        && "topics"@.len() == 6);
    assert("toBlock"@[0] != "address"@[0]);
    let members = filter_tree(from_block, to_block, address, topics)->Object_0;
    assert(members.dom() =~= set!["fromBlock"@, "toBlock"@, "address"@, "topics"@]);
}

/// A transaction holds its sender, its recipient and its call data, and nothing
/// more.
pub proof fn law_transaction_by_members(from: Seq<char>, to: Seq<char>, data: Seq<char>)
    ensures
        match transaction_tree(from, to, data) {
            JsonTree::Object(members) => {
                &&& members.dom() == set!["from"@, "to"@, "data"@]
                &&& members["from"@] == JsonTree::Text(from)
                &&& members["to"@] == JsonTree::Text(to)
                &&& members["data"@] == JsonTree::Text(data)
            },
            _ => false,
        },
{
    reveal_strlit("from");
    reveal_strlit("to");
    reveal_strlit("data");
    assert("from"@.len() == 4 && "to"@.len() == 2 && "data"@.len() == 4);
    assert("from"@[0] != "data"@[0]);
    let members = transaction_tree(from, to, data)->Object_0;
    assert(members.dom() =~= set!["from"@, "to"@, "data"@]);
}

} // verus!
