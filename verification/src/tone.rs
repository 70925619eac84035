//! Tones for the mesh: the greeting, and one tone for each contract event.

use crate::json::{add_member, no_members, number_value, object_value, string_value, text_array};
use crate::quantity::parse_hex_u64;
use crate::topics::TopicTable;
use serde_json::Value;
#[allow(unused_imports)]
use crate::{intent, json, quantity, topics};
#[allow(unused_imports)]
use crate::json::JsonTree;
use vstd::prelude::*;

verus! {

/// The name under which the bridge announces itself.
pub const BEE_NAME: &'static str = "daman-bridge";

/// A log entry as the chain reports it.
#[derive(Debug, Clone)]
pub struct RpcLog {
    /// Address of the emitting contract.
    pub address: String,
    /// Topics; the first one tells the event.
    pub topics: Vec<String>,
    /// Data that no topic carries.
    pub data: String,
    /// Block, as a chain quantity.
    pub block_number: String,
    /// Transaction.
    pub tx_hash: String,
}

/// The texts of a log entry.
pub struct LogView {
    /// Address of the emitting contract.
    pub address: Seq<char>,
    /// Topics.
    pub topics: Seq<Seq<char>>,
    /// Data.
    pub data: Seq<char>,
    /// Block.
    pub block_number: Seq<char>,
    /// Transaction.
    pub tx_hash: Seq<char>,
}

impl View for RpcLog {
    type V = LogView;

    open spec fn view(&self) -> LogView {
        LogView {
            address: self.address@,
            topics: json::string_views(self.topics@),
            data: self.data@,
            block_number: self.block_number@,
            tx_hash: self.tx_hash@,
        }
    }
}

/// The views of a list of log entries.
pub open spec fn log_views(logs: Seq<RpcLog>) -> Seq<LogView> {
    logs.map_values(|log: RpcLog| log@)
}

/// The arguments of the tone for a log entry of a block.
pub open spec fn tone_args(log: LogView, block: u64) -> JsonTree {
    JsonTree::Object(
        map![
            "topics"@ => JsonTree::Array(json::texts(log.topics)),
            "data"@ => JsonTree::Text(log.data),
            "blockNumber"@ => JsonTree::Number(
                quantity::number_text(block as nat, 10),
            ),
            "txHash"@ => JsonTree::Text(log.tx_hash),
        ],
    )
}

/// The tone with a chi for a log entry of a block.
pub open spec fn tone_tree(chi: Seq<char>, log: LogView, block: u64) -> JsonTree {
    JsonTree::Object(
        map![
            "chi"@ => JsonTree::Text(chi),
            "args"@ => tone_args(log, block),
        ],
    )
}

/// The tone for a log entry: none where the first topic is missing or not in
/// the table, nor where the block is not a chain quantity.
pub open spec fn tone_of(
    log: LogView,
    chis: Map<Seq<char>, Seq<char>>,
) -> Option<JsonTree> {
    if log.topics.len() > 0 && chis.contains_key(log.topics[0]) {
        match quantity::unsigned_value(quantity::stripped(log.block_number), 16) {
            Some(block) => Some(tone_tree(chis[log.topics[0]], log, block)),
            None => None,
        }
    } else {
        None
    }
}

/// The tones for a list of log entries, in their order.
pub open spec fn tones_of(
    logs: Seq<LogView>,
    chis: Map<Seq<char>, Seq<char>>,
) -> Seq<JsonTree>
    decreases logs.len(),
{
    if logs.len() == 0 {
        Seq::empty()
    } else {
        match tone_of(logs.last(), chis) {
            Some(tone) => tones_of(logs.drop_last(), chis).push(tone),
            None => tones_of(logs.drop_last(), chis),
        }
    }
}

/// What an optional value holds.
pub open spec fn content_of(v: Option<Value>) -> Option<JsonTree> {
    match v {
        Some(v) => Some(json::content(v)),
        None => None,
    }
}

/// The chis that the bridge sends or listens for, as the greeting lists them.
pub open spec fn announced_chis() -> Seq<Seq<char>> {
    seq![
        "leader-bond-posted"@,
        "follower-subscribed"@,
        "trade-executed"@,
        "settlement-completed"@,
        "degradation-detected"@,
        "dispute-opened"@,
        "ruling"@,
        "bond-slashed"@,
        "slash-claim"@,
    ]
}

/// The greeting of a version of the bridge.
pub open spec fn hello_tree(version: Seq<char>) -> JsonTree {
    JsonTree::Object(
        map![
            "chi"@ => JsonTree::Text("hello"@),
            "bee"@ => JsonTree::Array(json::texts(seq!["forager"@])),
            "chis"@ => JsonTree::Array(json::texts(announced_chis())),
            "name"@ => JsonTree::Text("daman-bridge"@),
            "version"@ => JsonTree::Text(version),
        ],
    )
}

/// The greeting with which the bridge announces itself to the mesh.
pub fn hello(version: &str) -> (r: Value)
    ensures
        json::content(r) == hello_tree(version@),
        json::content(r).simple(127),
        intent::dispatch_of(json::content(r)) is None,
{
    proof {
        lemma_greeting(version@);
    }
    let bee: Vec<String> = vec![String::from_str("forager")];
    let chis: Vec<String> = vec![
        String::from_str("leader-bond-posted"),
        String::from_str("follower-subscribed"),
        String::from_str("trade-executed"),
        String::from_str("settlement-completed"),
        String::from_str("degradation-detected"),
        String::from_str("dispute-opened"),
        String::from_str("ruling"),
        String::from_str("bond-slashed"),
        String::from_str("slash-claim"),
    ];
    proof {
        assert(json::string_views(bee@) =~= seq!["forager"@]);
        assert(json::string_views(chis@) =~= announced_chis());
    }
    proof {
        reveal_strlit("chi");
        reveal_strlit("bee");
        reveal_strlit("chis");
        reveal_strlit("name");
        reveal_strlit("version");
        assert("chi"@.len() == 3 && "bee"@.len() == 3 && "chis"@.len() == 4 && "name"@.len() == 4
            && "version"@.len() == 7);
        assert("chi"@[0] != "bee"@[0]);
        assert("chis"@[0] != "name"@[0]);
    }
    let mut greeting = no_members();
    add_member(&mut greeting, "chi", string_value("hello"));
    add_member(&mut greeting, "bee", text_array(&bee));
    add_member(&mut greeting, "chis", text_array(&chis));
    add_member(&mut greeting, "name", string_value(BEE_NAME));
    add_member(&mut greeting, "version", string_value(version));
    object_value(greeting)
}

/// The tone for a log entry.
pub fn log_to_tone(log: &RpcLog, topics: &TopicTable) -> (r: Option<Value>)
    requires
        topics.wf(),
    ensures
        content_of(r) == tone_of(log@, topics@),
        r is Some <==> tone_of(log@, topics@) is Some,
        r matches Some(tone) ==> tone_of(log@, topics@) == Some(json::content(tone)),
        r matches Some(tone) ==> json::content(tone).simple(127)
            && intent::dispatch_of(json::content(tone)) is None,
{
    proof {
        law_tone_is_simple(log@, topics@);
        law_own_tone_asks_for_no_call(log@, topics@);
    }
    if log.topics.len() == 0 {
        return None;
    }
    let chi = match topics.chi_of(log.topics[0].as_str()) {
        Some(chi) => chi,
        None => {
            return None;
        },
    };
    let block: u64 = match parse_hex_u64(log.block_number.as_str()) {
        Ok(n) => n,
        Err(_) => {
            return None;
        },
    };
    proof {
        reveal_strlit("chi");
        reveal_strlit("args");
        reveal_strlit("topics");
        reveal_strlit("data");
        reveal_strlit("blockNumber");
        reveal_strlit("txHash");
        assert("chi"@.len() == 3 && "args"@.len() == 4);
        assert("topics"@.len() == 6 && "data"@.len() == 4 && "blockNumber"@.len() == 11
            && "txHash"@.len() == 6);
        assert("topics"@[1] != "txHash"@[1]);
    }
    let mut args = no_members();
    add_member(&mut args, "topics", text_array(&log.topics));
    add_member(&mut args, "data", string_value(log.data.as_str()));
    add_member(&mut args, "blockNumber", number_value(block));
    add_member(&mut args, "txHash", string_value(log.tx_hash.as_str()));
    let mut tone = no_members();
    add_member(&mut tone, "chi", string_value(chi));
    add_member(&mut tone, "args", object_value(args));
    Some(object_value(tone))
}

/// The tones for a list of log entries.
pub fn logs_to_tones(logs: &Vec<RpcLog>, topics: &TopicTable) -> (r: Vec<Value>)
    requires
        topics.wf(),
    ensures
        json::contents(r@) == tones_of(log_views(logs@), topics@),
{
    let mut tones: Vec<Value> = Vec::new();
    let ghost views = log_views(logs@);
    let mut i: usize = 0;
    assert(json::contents(tones@) =~= tones_of(views.take(0), topics@));
    while i < logs.len()
        invariant
            i <= logs@.len(),
            views == log_views(logs@),
            topics.wf(),
            json::contents(tones@) == tones_of(views.take(i as int), topics@),
        decreases logs@.len() - i,
    {
        let ghost before = json::contents(tones@);
        proof {
            assert(views.take(i + 1).drop_last() =~= views.take(i as int));
            assert(views.take(i + 1).last() == logs@[i as int]@);
        }
        match log_to_tone(&logs[i], topics) {
            Some(tone) => {
                tones.push(tone);
                assert(json::contents(tones@) =~= before.push(json::content(tone)));
            },
            None => {},
        }
        i = i + 1;
    }
    assert(views.take(views.len() as int) =~= views);
    tones
}

/// The greeting is nested two deep, has no number, and asks for no call.
proof fn lemma_greeting(version: Seq<char>)
    ensures
        hello_tree(version).simple(127),
        intent::dispatch_of(hello_tree(version)) is None,
{
    reveal_strlit("args");
    reveal_strlit("chi");
    reveal_strlit("bee");
    reveal_strlit("chis");
    reveal_strlit("name");
    reveal_strlit("version");
    assert("args"@.len() != "chi"@.len());
    assert("args"@.len() != "bee"@.len());
    assert("args"@[0] != "chis"@[0]);
    assert("args"@[0] != "name"@[0]);
    assert("args"@.len() != "version"@.len());
    reveal_with_fuel(JsonTree::simple, 3);
}

/// The greeting announces the chi of every forwarded event, and beside them
/// only the one inbound chi that is no outbound one.
pub proof fn law_greeting_announces_every_chi()
    ensures
        announced_chis() == topics::documented_events().map_values(
            |e: (Seq<char>, Seq<char>)| e.0,
        ).push("slash-claim"@),
        announced_chis().contains("ruling"@),
{
    assert(announced_chis() =~= topics::documented_events().map_values(
        |e: (Seq<char>, Seq<char>)| e.0,
    ).push("slash-claim"@));
    assert(announced_chis()[6] == "ruling"@);
}

/// A log entry with a listed event's topic in front and a block that reads as a
/// number becomes a tone with that event's chi, the log's topics, data and
/// transaction, and that number, unless a later event of the list has the same
/// topic.
pub proof fn law_listed_event_becomes_tone(
    events: Seq<(Seq<char>, Seq<char>)>,
    i: int,
    log: LogView,
    block: u64,
)
    requires
        0 <= i < events.len(),
        log.topics.len() > 0,
        quantity::unsigned_value(quantity::stripped(log.block_number), 16) == Some(block),
    ensures
        log.topics[0] == topics::topic_of(events[i].1) && (forall|j: int|
            i < j < events.len() ==> topics::topic_of((#[trigger] events[j]).1)
                != topics::topic_of(events[i].1)) ==> tone_of(
            log,
            topics::chis_by_topic(events),
        ) == Some(tone_tree(events[i].0, log, block)),
{
    topics::law_listed_event_is_found(events, i);
}

/// A tone made of the table of a list of events has the chi of one of them.
pub proof fn law_tone_has_listed_chi(events: Seq<(Seq<char>, Seq<char>)>, log: LogView)
    ensures
        tone_of(log, topics::chis_by_topic(events)) matches Some(tone) ==> exists|i: int|
            0 <= i < events.len() && tone.text_member("chi"@) == Some((#[trigger] events[i]).0)
                && topics::topic_of(events[i].1) == log.topics[0],
{
    let chis = topics::chis_by_topic(events);
    if let Some(tone) = tone_of(log, chis) {
        let topic = log.topics[0];
        topics::law_table_holds_listed_events_only(events, topic);
        let i = choose|i: int|
            0 <= i < events.len() && topics::topic_of((#[trigger] events[i]).1) == topic
                && events[i].0 == chis[topic];
        lemma_tone_members(chis[topic], log, block_of(log));
        assert(tone.text_member("chi"@) == Some(events[i].0));
    }
}

/// The block of a log entry.
spec fn block_of(log: LogView) -> u64 {
    quantity::unsigned_value(quantity::stripped(log.block_number), 16).unwrap_or(0)
}

/// The members of a tone, and those that its arguments lack.
proof fn lemma_tone_members(chi: Seq<char>, log: LogView, block: u64)
    ensures
        tone_tree(chi, log, block).text_member("chi"@) == Some(chi),
        tone_tree(chi, log, block).member("args"@) == Some(tone_args(log, block)),
        tone_args(log, block).member("leader"@) is None,
        tone_args(log, block).member("claimId"@) is None,
{
    reveal_strlit("chi");
    reveal_strlit("args");
    reveal_strlit("leader");
    reveal_strlit("claimId");
    reveal_strlit("topics");
    reveal_strlit("data");
    reveal_strlit("blockNumber");
    reveal_strlit("txHash");
    assert("chi"@.len() != "args"@.len());
    assert("leader"@[0] != "topics"@[0]);
    assert("leader"@.len() != "data"@.len());
    assert("leader"@.len() != "blockNumber"@.len());
    assert("leader"@[0] != "txHash"@[0]);
    assert("claimId"@.len() != "topics"@.len());
    assert("claimId"@.len() != "data"@.len());
    assert("claimId"@.len() != "blockNumber"@.len());
    assert("claimId"@.len() != "txHash"@.len());
}

/// The bridge does not answer itself: no tone that it sends for a log entry
/// asks for a chain call when it comes back from the mesh, not even a
/// `ruling`, whatever the table of topics.
pub proof fn law_own_tone_asks_for_no_call(log: LogView, chis: Map<Seq<char>, Seq<char>>)
    ensures
        tone_of(log, chis) matches Some(tone) ==> intent::dispatch_of(tone) is None,
{
    if let Some(tone) = tone_of(log, chis) {
        lemma_tone_members(chis[log.topics[0]], log, block_of(log));
    }
}

/// A tone is shallow enough, and its number is a `u64`, so that its line reads
/// back as the same tone.
pub proof fn law_tone_is_simple(log: LogView, chis: Map<Seq<char>, Seq<char>>)
    ensures
        tone_of(log, chis) matches Some(tone) ==> tone.simple(127),
{
    if let Some(tone) = tone_of(log, chis) {
        reveal_with_fuel(JsonTree::simple, 2);
        let block = block_of(log);
        let topics = JsonTree::Array(json::texts(log.topics));
        let number = JsonTree::Number(quantity::number_text(block as nat, 10));
        assert(topics.simple(125));
        assert(number.simple(125));
        assert(tone_args(log, block).simple(126));
        assert(tone.simple(127));
    }
}

/// The stream of tones does not depend on where the polls cut the stream of
/// log entries.
pub proof fn law_tones_of_concat(
    a: Seq<LogView>,
    b: Seq<LogView>,
    chis: Map<Seq<char>, Seq<char>>,
)
    ensures
        tones_of(a + b, chis) == tones_of(a, chis) + tones_of(b, chis),
    decreases b.len(),
{
    if b.len() == 0 {
        assert(a + b =~= a);
        assert(tones_of(a, chis) + tones_of(b, chis) =~= tones_of(a, chis));
    } else {
        law_tones_of_concat(a, b.drop_last(), chis);
        assert((a + b).drop_last() =~= a + b.drop_last());
        assert((a + b).last() == b.last());
        assert(tones_of(a + b, chis) =~= tones_of(a, chis) + tones_of(b, chis));
    }
}

/// Every log entry that has a tone is forwarded.
pub proof fn law_qualifying_log_is_forwarded(
    logs: Seq<LogView>,
    i: int,
    chis: Map<Seq<char>, Seq<char>>,
)
    requires
        0 <= i < logs.len(),
    ensures
        tone_of(logs[i], chis) matches Some(tone) ==> tones_of(logs, chis).contains(tone),
    decreases logs.len(),
{
    if let Some(tone) = tone_of(logs[i], chis) {
        let before = tones_of(logs.drop_last(), chis);
        if i < logs.len() - 1 {
            law_qualifying_log_is_forwarded(logs.drop_last(), i, chis);
            let k = choose|k: int| 0 <= k < before.len() && before[k] == tone;
            assert(tones_of(logs, chis)[k] == tone);
        } else {
            assert(tones_of(logs, chis)[before.len() as int] == tone);
        }
    }
}

/// Nothing else is forwarded: each tone is that of a log entry, and there are
/// no more tones than log entries.
pub proof fn law_nothing_else_is_forwarded(
    logs: Seq<LogView>,
    k: int,
    chis: Map<Seq<char>, Seq<char>>,
)
    requires
        0 <= k < tones_of(logs, chis).len(),
    ensures
        tones_of(logs, chis).len() <= logs.len(),
        exists|i: int|
            0 <= i < logs.len() && tone_of(#[trigger] logs[i], chis) == Some(
                tones_of(logs, chis)[k],
            ),
    decreases logs.len(),
{
    let front = logs.drop_last();
    let before = tones_of(front, chis);
    if k < before.len() {
        law_nothing_else_is_forwarded(front, k, chis);
        let i = choose|i: int|
            0 <= i < front.len() && tone_of(#[trigger] front[i], chis) == Some(before[k]);
        assert(logs[i] == front[i]);
    } else {
        assert(tone_of(logs[logs.len() - 1], chis) == Some(tones_of(logs, chis)[k]));
        if before.len() > 0 {
            law_nothing_else_is_forwarded(front, 0, chis);
        }
    }
}

/// What a log entry carries is told field by field, and topic by topic.
pub proof fn law_log_keeps_its_fields(log: RpcLog)
    ensures
        log@.address == log.address@,
        log@.topics.len() == log.topics@.len(),
        forall|i: int| 0 <= i < log.topics@.len() ==> #[trigger] log@.topics[i] == log.topics@[i]@,
        log@.data == log.data@,
        log@.block_number == log.block_number@,
        log@.tx_hash == log.tx_hash@,
{
}

/// A log entry has a tone exactly where its first topic is in the table and
/// its block reads as a number. The tone is an object of a chi and arguments:
/// the chi is the one that the table gives for the first topic; the arguments
/// are all topics of the entry in their order, its data, its transaction and
/// the number of its block, and nothing more.
pub proof fn law_tone_by_members(log: LogView, chis: Map<Seq<char>, Seq<char>>)
    ensures
        match tone_of(log, chis) {
            Some(JsonTree::Object(members)) => {
                &&& log.topics.len() > 0
                &&& chis.contains_key(log.topics[0])
                &&& members.dom() == set!["chi"@, "args"@]
                &&& members["chi"@] == JsonTree::Text(chis[log.topics[0]])
                &&& match members["args"@] {
                    JsonTree::Object(args) => {
                        &&& args.dom() == set!["topics"@, "data"@, "blockNumber"@, "txHash"@]
                        &&& match args["topics"@] {
                            JsonTree::Array(items) => {
                                &&& items.len() == log.topics.len()
                                &&& forall|i: int|
                                    0 <= i < items.len() ==> #[trigger] items[i] == JsonTree::Text(
                                        log.topics[i],
                                    )
                            },
                            _ => false,
                        }
                        &&& args["data"@] == JsonTree::Text(log.data)
                        &&& args["txHash"@] == JsonTree::Text(log.tx_hash)
                        &&& match quantity::unsigned_value(
                            quantity::stripped(log.block_number),
                            16,
                        ) {
                            Some(block) => args["blockNumber"@] == JsonTree::Number(
                                quantity::number_text(block as nat, 10),
                            ),
                            None => false,
                        }
                    },
                    _ => false,
                }
            },
            Some(_) => false,
            None => {
                ||| log.topics.len() == 0
                ||| !chis.contains_key(log.topics[0])
                ||| quantity::unsigned_value(quantity::stripped(log.block_number), 16) is None
            },
        },
{
    reveal_strlit("chi");
    reveal_strlit("args");
    reveal_strlit("topics");
    reveal_strlit("data");
    reveal_strlit("blockNumber");
    reveal_strlit("txHash");
    assert("chi"@.len() == 3 && "args"@.len() == 4);
    assert("topics"@.len() == 6 && "data"@.len() == 4 && "blockNumber"@.len() == 11
        && "txHash"@.len() == 6);
    assert("topics"@[1] != "txHash"@[1]);
    if let Some(tone) = tone_of(log, chis) {
        let block = block_of(log);
        let members = tone->Object_0;
        let args = tone_args(log, block)->Object_0;
        assert(members.dom() =~= set!["chi"@, "args"@]);
        assert(args.dom() =~= set!["topics"@, "data"@, "blockNumber"@, "txHash"@]);
        assert(members["args"@] == tone_args(log, block));
    }
}

/// A log entry adds its own tone to the stream, at the end, where it has one,
/// and nothing where it has none.
pub proof fn law_one_log_adds_one_tone(
    logs: Seq<LogView>,
    log: LogView,
    chis: Map<Seq<char>, Seq<char>>,
)
    ensures
        tones_of(Seq::<LogView>::empty(), chis) == Seq::<JsonTree>::empty(),
        match tone_of(log, chis) {
            Some(tone) => tones_of(logs.push(log), chis) == tones_of(logs, chis).push(tone),
            None => tones_of(logs.push(log), chis) == tones_of(logs, chis),
        },
{
    assert(logs.push(log).drop_last() =~= logs);
}

/// A list of log entries is told entry by entry.
pub proof fn law_logs_are_told_one_by_one(logs: Seq<RpcLog>)
    ensures
        log_views(logs).len() == logs.len(),
        forall|i: int| 0 <= i < logs.len() ==> #[trigger] log_views(logs)[i] == logs[i]@,
{
}

/// The greeting says `hello`, names the bridge and its version, calls it a
/// forager, and lists the eight chis that it sends and the one that it only
/// listens for.
pub proof fn law_greeting_by_members(version: Seq<char>)
    ensures
        match hello_tree(version) {
            JsonTree::Object(members) => {
                &&& members.dom() == set!["chi"@, "bee"@, "chis"@, "name"@, "version"@]
                &&& members["chi"@] == JsonTree::Text("hello"@)
                &&& members["bee"@] == JsonTree::Array(seq![JsonTree::Text("forager"@)])
                &&& members["name"@] == JsonTree::Text("daman-bridge"@)
                &&& members["version"@] == JsonTree::Text(version)
                &&& members["chis"@] == JsonTree::Array(
                    seq![
                        JsonTree::Text("leader-bond-posted"@),
                        JsonTree::Text("follower-subscribed"@),
                        JsonTree::Text("trade-executed"@),
                        JsonTree::Text("settlement-completed"@),
                        JsonTree::Text("degradation-detected"@),
                        JsonTree::Text("dispute-opened"@),
                        JsonTree::Text("ruling"@),
                        JsonTree::Text("bond-slashed"@),
                        JsonTree::Text("slash-claim"@),
                    ],
                )
            },
            _ => false,
        },
{
    reveal_strlit("chi");
    reveal_strlit("bee");
    reveal_strlit("chis");
    reveal_strlit("name");
    reveal_strlit("version");
    assert("chi"@.len() == 3 && "bee"@.len() == 3 && "chis"@.len() == 4 && "name"@.len() == 4
        && "version"@.len() == 7);
    assert("chi"@[0] != "bee"@[0]);
    assert("chis"@[0] != "name"@[0]);
    let members = hello_tree(version)->Object_0;
    assert(members.dom() =~= set!["chi"@, "bee"@, "chis"@, "name"@, "version"@]);
    assert(json::texts(seq!["forager"@]) =~= seq![JsonTree::Text("forager"@)]);
    assert(json::texts(announced_chis()) =~= seq![
        JsonTree::Text("leader-bond-posted"@),
        JsonTree::Text("follower-subscribed"@),
        JsonTree::Text("trade-executed"@),
        JsonTree::Text("settlement-completed"@),
        JsonTree::Text("degradation-detected"@),
        JsonTree::Text("dispute-opened"@),
        JsonTree::Text("ruling"@),
        JsonTree::Text("bond-slashed"@),
        JsonTree::Text("slash-claim"@),
    ]);
}

} // verus!
