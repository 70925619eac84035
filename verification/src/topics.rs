//! The contract events that the bridge forwards, keyed by their topic hash.

use crate::digest::keccak_hex;
use crate::text::same;
#[allow(unused_imports)]
use crate::digest;
use vstd::prelude::*;

verus! {

/// The forwarded events: the chi of the tone, and the event's signature.
pub open spec fn documented_events() -> Seq<(Seq<char>, Seq<char>)> {
    seq![
        ("leader-bond-posted"@, "LeaderBondPosted(address,uint256,uint256)"@),
        ("follower-subscribed"@, "FollowerSubscribed(address,address,uint256,bytes32)"@),
        ("trade-executed"@, "TradeExecuted(address,address,uint256,bool,uint64)"@),
        ("settlement-completed"@, "SettlementCompleted(address,uint256,int256,uint64)"@),
        ("degradation-detected"@, "DegradationFlagged(uint256,address,address,bytes32,bytes32)"@),
        ("dispute-opened"@, "DisputeOpened(uint256,address)"@),
        ("ruling"@, "ArbiterRuled(uint256,uint256,bool,bytes32)"@),
        ("bond-slashed"@, "BondSlashed(address,uint256,uint256)"@),
    ]
}

/// The topic of an event signature: its digest, with a prefix.
pub open spec fn topic_of(signature: Seq<char>) -> Seq<char> {
    seq!['0', 'x'] + digest::digest_text(vstd::utf8::encode_utf8(signature))
}

/// From topics to chis, for a list of events: of two events with one topic,
/// the later one counts.
pub open spec fn chis_by_topic(events: Seq<(Seq<char>, Seq<char>)>) -> Map<Seq<char>, Seq<char>>
    decreases events.len(),
{
    if events.len() == 0 {
        Map::empty()
    } else {
        chis_by_topic(events.drop_last()).insert(topic_of(events.last().1), events.last().0)
    }
}

/// From keys to values, for a list of entries with distinct keys.
pub open spec fn entries_map(entries: Seq<(Seq<char>, Seq<char>)>) -> Map<Seq<char>, Seq<char>> {
    Map::new(
        |k: Seq<char>| exists|i: int| 0 <= i < entries.len() && (#[trigger] entries[i]).0 == k,
        |k: Seq<char>|
            entries[choose|i: int| 0 <= i < entries.len() && (#[trigger] entries[i]).0 == k].1,
    )
}

/// No key occurs twice.
pub open spec fn distinct_keys(entries: Seq<(Seq<char>, Seq<char>)>) -> bool {
    forall|i: int, j: int|
        0 <= i < j < entries.len() ==> (#[trigger] entries[i]).0 != (#[trigger] entries[j]).0
}

/// The chi of each topic.
pub struct TopicTable {
    /// Pairs of a topic and its chi; no topic occurs twice.
    pub by_hash: Vec<(String, &'static str)>,
}

impl View for TopicTable {
    type V = Map<Seq<char>, Seq<char>>;

    open spec fn view(&self) -> Map<Seq<char>, Seq<char>> {
        entries_map(self.entries())
    }
}

impl TopicTable {
    /// The topics and chis, in the order in which they are kept.
    pub open spec fn entries(&self) -> Seq<(Seq<char>, Seq<char>)> {
        self.by_hash@.map_values(|e: (String, &'static str)| (e.0@, e.1@))
    }

    /// The topics, in the order in which they are kept.
    pub open spec fn topics(&self) -> Seq<Seq<char>> {
        self.entries().map_values(|e: (Seq<char>, Seq<char>)| e.0)
    }

    /// No topic occurs twice.
    pub open spec fn wf(&self) -> bool {
        distinct_keys(self.entries())
    }

    /// No topic yet.
    pub fn new() -> (r: TopicTable)
        ensures
            r.wf(),
            r@ == Map::<Seq<char>, Seq<char>>::empty(),
    {
        let r = TopicTable { by_hash: Vec::new() };
        assert(r@ =~= Map::<Seq<char>, Seq<char>>::empty());
        r
    }

    /// Where a topic is kept.
    fn find(&self, topic: &str) -> (r: Option<usize>)
        ensures
            match r {
                Some(i) => i < self.by_hash@.len() && self.entries()[i as int].0 == topic@,
                None => forall|i: int|
                    0 <= i < self.entries().len() ==> (#[trigger] self.entries()[i]).0 != topic@,
            },
    {
        let mut i: usize = 0;
        while i < self.by_hash.len()
            invariant
                i <= self.by_hash@.len(),
                forall|k: int| 0 <= k < i ==> (#[trigger] self.entries()[k]).0 != topic@,
            decreases self.by_hash@.len() - i,
        {
            assert(self.entries()[i as int].0 == self.by_hash@[i as int].0@);
            if same(self.by_hash[i].0.as_str(), topic) {
                return Some(i);
            }
            i = i + 1;
        }
        None
    }

    /// The chi of a topic.
    pub fn chi_of(&self, topic: &str) -> (r: Option<&'static str>)
        requires
            self.wf(),
        ensures
            match r {
                Some(chi) => self@.contains_key(topic@) && self@[topic@] == chi@,
                None => !self@.contains_key(topic@),
            },
            match r {
                Some(chi) => exists|i: int|
                    0 <= i < self.by_hash@.len() && (#[trigger] self.by_hash@[i]).0@ == topic@
                        && self.by_hash@[i].1@ == chi@,
                None => forall|i: int|
                    0 <= i < self.by_hash@.len() ==> (#[trigger] self.by_hash@[i]).0@ != topic@,
            },
    {
        match self.find(topic) {
            Some(i) => {
                proof {
                    lemma_entries_map_value(self.entries(), i as int);
                    assert(self.entries()[i as int].1 == self.by_hash@[i as int].1@);
                    assert(self.by_hash@[i as int].0@ == topic@);
                }
                Some(self.by_hash[i].1)
            },
            None => {
                assert forall|i: int| 0 <= i < self.by_hash@.len() implies (
                #[trigger] self.by_hash@[i]).0@ != topic@ by {
                    assert(self.entries()[i].0 == self.by_hash@[i].0@);
                }
                None
            },
        }
    }

    /// Sets the chi of a topic.
    pub fn insert(&mut self, topic: String, chi: &'static str)
        requires
            old(self).wf(),
        ensures
            final(self).wf(),
            final(self)@ == old(self)@.insert(topic@, chi@),
    {
        let ghost before = self.entries();
        match self.find(topic.as_str()) {
            Some(i) => {
                self.by_hash.set(i, (topic, chi));
                proof {
                    assert(self.entries() =~= before.update(i as int, (topic@, chi@)));
                    lemma_entries_map_update(before, i as int, chi@);
                }
            },
            None => {
                self.by_hash.push((topic, chi));
                proof {
                    assert(self.entries() =~= before.push((topic@, chi@)));
                    lemma_entries_map_push(before, topic@, chi@);
                }
            },
        }
    }
}

/// An entry's key maps to its value.
pub proof fn lemma_entries_map_value(entries: Seq<(Seq<char>, Seq<char>)>, i: int)
    requires
        distinct_keys(entries),
        0 <= i < entries.len(),
    ensures
        entries_map(entries).contains_key(entries[i].0),
        entries_map(entries)[entries[i].0] == entries[i].1,
{
    let k = entries[i].0;
    let j = choose|j: int| 0 <= j < entries.len() && (#[trigger] entries[j]).0 == k;
    assert(entries[i].0 == k);
    assert(0 <= j < entries.len() && entries[j].0 == k);
    assert(i == j) by {
        if i < j {
            assert(entries[i].0 != entries[j].0);
        } else if j < i {
            assert(entries[j].0 != entries[i].0);
        }
    }
}

/// A new key at the end is one more pair of the map.
proof fn lemma_entries_map_push(
    entries: Seq<(Seq<char>, Seq<char>)>,
    key: Seq<char>,
    value: Seq<char>,
)
    requires
        distinct_keys(entries),
        forall|i: int| 0 <= i < entries.len() ==> (#[trigger] entries[i]).0 != key,
    ensures
        distinct_keys(entries.push((key, value))),
        entries_map(entries.push((key, value))) == entries_map(entries).insert(key, value),
{
    let after = entries.push((key, value));
    assert(distinct_keys(after));
    let (a, b) = (entries_map(after), entries_map(entries).insert(key, value));
    assert forall|k: Seq<char>| a.contains_key(k) == b.contains_key(k) by {
        if b.contains_key(k) {
            if k == key {
                assert(after[entries.len() as int].0 == k);
            } else {
                let i = choose|i: int| 0 <= i < entries.len() && (#[trigger] entries[i]).0 == k;
                assert(after[i].0 == k);
            }
        }
        if a.contains_key(k) && k != key {
            let i = choose|i: int| 0 <= i < after.len() && (#[trigger] after[i]).0 == k;
            assert(entries[i].0 == k);
        }
    }
    assert forall|k: Seq<char>| a.contains_key(k) implies a[k] == b[k] by {
        let i = choose|i: int| 0 <= i < after.len() && (#[trigger] after[i]).0 == k;
        lemma_entries_map_value(after, i);
        if i < entries.len() {
            assert(after[i] == entries[i]);
            lemma_entries_map_value(entries, i);
        }
    }
    assert(a =~= b);
}

/// A new value for a key that is there changes that pair of the map alone.
proof fn lemma_entries_map_update(
    entries: Seq<(Seq<char>, Seq<char>)>,
    at: int,
    value: Seq<char>,
)
    requires
        distinct_keys(entries),
        0 <= at < entries.len(),
    ensures
        distinct_keys(entries.update(at, (entries[at].0, value))),
        entries_map(entries.update(at, (entries[at].0, value))) == entries_map(entries).insert(
            entries[at].0,
            value,
        ),
{
    let key = entries[at].0;
    let after = entries.update(at, (key, value));
    assert forall|i: int| 0 <= i < after.len() implies (#[trigger] after[i]).0 == entries[i].0 by {}
    assert(distinct_keys(after)) by {
        assert forall|i: int, j: int| 0 <= i < j < after.len() implies (#[trigger] after[i]).0 != (
        #[trigger] after[j]).0 by {
            assert(entries[i].0 != entries[j].0);
        }
    }
    let (a, b) = (entries_map(after), entries_map(entries).insert(key, value));
    assert forall|k: Seq<char>| a.contains_key(k) == b.contains_key(k) by {
        if b.contains_key(k) {
            if k == key {
                assert(after[at].0 == k);
            } else {
                let i = choose|i: int| 0 <= i < entries.len() && (#[trigger] entries[i]).0 == k;
                assert(after[i].0 == k);
            }
        }
        if a.contains_key(k) && k != key {
            let i = choose|i: int| 0 <= i < after.len() && (#[trigger] after[i]).0 == k;
            assert(entries[i].0 == k);
        }
    }
    assert forall|k: Seq<char>| a.contains_key(k) implies a[k] == b[k] by {
        let i = choose|i: int| 0 <= i < after.len() && (#[trigger] after[i]).0 == k;
        lemma_entries_map_value(after, i);
        lemma_entries_map_value(entries, i);
    }
    assert(a =~= b);
}

/// The table of the forwarded events.
pub fn topic_table() -> (r: TopicTable)
    ensures
        r.wf(),
        r@ == chis_by_topic(documented_events()),
        r.by_hash@.len() == r@.len(),
        forall|topic: Seq<char>| #[trigger] r@.contains_key(topic) ==> topic.len() == 66,
{
    let pairs: Vec<(&'static str, &'static str)> =
        vec![
        ("leader-bond-posted", "LeaderBondPosted(address,uint256,uint256)"),
        ("follower-subscribed", "FollowerSubscribed(address,address,uint256,bytes32)"),
        ("trade-executed", "TradeExecuted(address,address,uint256,bool,uint64)"),
        ("settlement-completed", "SettlementCompleted(address,uint256,int256,uint64)"),
        ("degradation-detected", "DegradationFlagged(uint256,address,address,bytes32,bytes32)"),
        ("dispute-opened", "DisputeOpened(uint256,address)"),
        ("ruling", "ArbiterRuled(uint256,uint256,bool,bytes32)"),
        ("bond-slashed", "BondSlashed(address,uint256,uint256)"),
    ];
    let ghost events = pairs@.map_values(|p: (&'static str, &'static str)| (p.0@, p.1@));
    assert(events =~= documented_events());
    let mut table = TopicTable::new();
    proof {
        reveal_strlit("0x");
        assert(events.take(0) =~= Seq::<(Seq<char>, Seq<char>)>::empty());
    }
    let mut i: usize = 0;
    while i < pairs.len()
        invariant
            i <= pairs@.len(),
            events == pairs@.map_values(|p: (&'static str, &'static str)| (p.0@, p.1@)),
            table.wf(),
            table@ == chis_by_topic(events.take(i as int)),
            forall|topic: Seq<char>| #[trigger] table@.contains_key(topic) ==> topic.len() == 66,
            "0x"@ == seq!['0', 'x'],
        decreases pairs@.len() - i,
    {
        let (chi, signature) = pairs[i];
        let digest = keccak_hex(signature.as_bytes());
        let topic = String::from_str("0x").concat(digest.as_str());
        proof {
            assert(topic@ =~= topic_of(signature@));
            assert(events.take(i + 1).drop_last() =~= events.take(i as int));
            assert(events.take(i + 1).last() == (chi@, signature@));
        }
        table.insert(topic, chi);
        i = i + 1;
    }
    assert(events.take(events.len() as int) =~= events);
    proof {
        law_table_size(table.entries());
    }
    table
}

/// A list with distinct keys makes a map with as many pairs.
pub proof fn law_table_size(entries: Seq<(Seq<char>, Seq<char>)>)
    requires
        distinct_keys(entries),
    ensures
        entries_map(entries).dom().finite(),
        entries_map(entries).len() == entries.len(),
    decreases entries.len(),
{
    if entries.len() == 0 {
        assert(entries_map(entries) =~= Map::<Seq<char>, Seq<char>>::empty());
    } else {
        let front = entries.drop_last();
        let (key, value) = entries.last();
        assert(distinct_keys(front)) by {
            assert forall|i: int, j: int| 0 <= i < j < front.len() implies (#[trigger] front[i]).0
                != (#[trigger] front[j]).0 by {
                assert(entries[i].0 != entries[j].0);
            }
        }
        assert forall|i: int| 0 <= i < front.len() implies (#[trigger] front[i]).0 != key by {
            assert(entries[i].0 != entries[entries.len() - 1].0);
        }
        law_table_size(front);
        lemma_entries_map_push(front, key, value);
        assert(front.push((key, value)) =~= entries);
    }
}

/// Each listed event has its topic in the table, and the table gives the
/// event's chi for it unless a later event has the same topic.
pub proof fn law_listed_event_is_found(events: Seq<(Seq<char>, Seq<char>)>, i: int)
    requires
        0 <= i < events.len(),
    ensures
        chis_by_topic(events).contains_key(topic_of(events[i].1)),
        (forall|j: int|
            i < j < events.len() ==> topic_of((#[trigger] events[j]).1) != topic_of(events[i].1))
            ==> chis_by_topic(events)[topic_of(events[i].1)] == events[i].0,
    decreases events.len(),
{
    if i < events.len() - 1 {
        let front = events.drop_last();
        law_listed_event_is_found(front, i);
        assert(front[i] == events[i]);
        if forall|j: int|
            i < j < events.len() ==> topic_of((#[trigger] events[j]).1) != topic_of(events[i].1) {
            assert(topic_of(events[events.len() - 1].1) != topic_of(events[i].1));
            assert forall|j: int| i < j < front.len() implies topic_of((#[trigger] front[j]).1)
                != topic_of(front[i].1) by {
                assert(front[j] == events[j]);
            }
        }
    }
}

/// Nothing but the listed events is in the table: a chi that it gives for a
/// topic is that of a listed event with this topic.
pub proof fn law_table_holds_listed_events_only(
    events: Seq<(Seq<char>, Seq<char>)>,
    topic: Seq<char>,
)
    ensures
        chis_by_topic(events).contains_key(topic) ==> exists|i: int|
            0 <= i < events.len() && topic_of((#[trigger] events[i]).1) == topic && events[i].0
                == chis_by_topic(events)[topic],
    decreases events.len(),
{
    if chis_by_topic(events).contains_key(topic) {
        let front = events.drop_last();
        if topic_of(events.last().1) == topic {
            assert(topic_of(events[events.len() - 1].1) == topic);
        } else {
            law_table_holds_listed_events_only(front, topic);
            let i = choose|i: int|
                0 <= i < front.len() && topic_of((#[trigger] front[i]).1) == topic && front[i].0
                    == chis_by_topic(front)[topic];
            assert(events[i] == front[i]);
        }
    }
}

/// Where no two of the listed events have one topic, the table has one pair for
/// each of them.
pub proof fn law_table_is_complete(events: Seq<(Seq<char>, Seq<char>)>)
    ensures
        chis_by_topic(events).dom().finite(),
        chis_by_topic(events).len() <= events.len(),
        (forall|i: int, j: int|
            0 <= i < j < events.len() ==> topic_of((#[trigger] events[i]).1) != topic_of(
                (#[trigger] events[j]).1,
            )) ==> chis_by_topic(events).len() == events.len(),
    decreases events.len(),
{
    if events.len() > 0 {
        let front = events.drop_last();
        law_table_is_complete(front);
        if forall|i: int, j: int|
            0 <= i < j < events.len() ==> topic_of((#[trigger] events[i]).1) != topic_of(
                (#[trigger] events[j]).1,
            ) {
            assert forall|i: int, j: int| 0 <= i < j < front.len() implies topic_of(
                (#[trigger] front[i]).1,
            ) != topic_of((#[trigger] front[j]).1) by {
                assert(front[i] == events[i] && front[j] == events[j]);
            }
            let topic = topic_of(events.last().1);
            if chis_by_topic(front).contains_key(topic) {
                law_table_holds_listed_events_only(front, topic);
                let i = choose|i: int|
                    0 <= i < front.len() && topic_of((#[trigger] front[i]).1) == topic
                        && front[i].0 == chis_by_topic(front)[topic];
                assert(topic_of(events[i].1) != topic_of(events[events.len() - 1].1));
            }
        }
    }
}

/// The topic of a signature is `0x` and its Keccak-256 digest in hexadecimal.
pub proof fn law_topic_is_prefixed_digest(signature: Seq<char>)
    ensures
        topic_of(signature) == seq!['0', 'x'] + digest::hex_text(
            digest::keccak256_digest(vstd::utf8::encode_utf8(signature)),
        ),
{
}

/// A table holds the pairs that it lists, and no others; a topic that is listed
/// once has the chi that stands beside it.
pub proof fn law_table_is_its_pairs(table: TopicTable)
    ensures
        table.wf() <==> forall|i: int, j: int|
            0 <= i < j < table.by_hash@.len() ==> (#[trigger] table.by_hash@[i]).0@ != (
            #[trigger] table.by_hash@[j]).0@,
        table.wf() ==> forall|i: int|
            0 <= i < table.by_hash@.len() ==> table@.contains_key(
                (#[trigger] table.by_hash@[i]).0@,
            ) && table@[table.by_hash@[i].0@] == table.by_hash@[i].1@,
        forall|topic: Seq<char>| #[trigger]
            table@.contains_key(topic) ==> exists|i: int|
                0 <= i < table.by_hash@.len() && (#[trigger] table.by_hash@[i]).0@ == topic,
        table.topics().len() == table.by_hash@.len(),
        forall|i: int|
            0 <= i < table.by_hash@.len() ==> #[trigger] table.topics()[i]
                == table.by_hash@[i].0@,
{
    let entries = table.entries();
    assert forall|i: int| 0 <= i < entries.len() implies #[trigger] entries[i] == (
        table.by_hash@[i].0@,
        table.by_hash@[i].1@,
    ) by {}
    if table.wf() {
        assert forall|i: int, j: int| 0 <= i < j < table.by_hash@.len() implies (
        #[trigger] table.by_hash@[i]).0@ != (#[trigger] table.by_hash@[j]).0@ by {
            assert(entries[i].0 != entries[j].0);
        }
        assert forall|i: int| 0 <= i < table.by_hash@.len() implies table@.contains_key(
            (#[trigger] table.by_hash@[i]).0@,
        ) && table@[table.by_hash@[i].0@] == table.by_hash@[i].1@ by {
            lemma_entries_map_value(entries, i);
        }
    }
    if forall|i: int, j: int|
        0 <= i < j < table.by_hash@.len() ==> (#[trigger] table.by_hash@[i]).0@ != (
        #[trigger] table.by_hash@[j]).0@ {
        assert forall|i: int, j: int| 0 <= i < j < entries.len() implies (#[trigger] entries[i]).0
            != (#[trigger] entries[j]).0 by {
            assert(table.by_hash@[i].0@ != table.by_hash@[j].0@);
        }
    }
    assert forall|topic: Seq<char>| #[trigger] table@.contains_key(topic) implies exists|i: int|
        0 <= i < table.by_hash@.len() && (#[trigger] table.by_hash@[i]).0@ == topic by {
        let i = choose|i: int| 0 <= i < entries.len() && (#[trigger] entries[i]).0 == topic;
        assert(table.by_hash@[i].0@ == topic);
    }
}

/// Every event of the contract has its topic in the table, the table has no
/// other topic, and unless two of the eight topics are the same, each event has
/// its own chi.
pub proof fn law_each_event_has_its_chi()
    ensures
        ({
            let chis = chis_by_topic(documented_events());
            let topic = |signature: Seq<char>|
                seq!['0', 'x'] + digest::hex_text(
                    digest::keccak256_digest(vstd::utf8::encode_utf8(signature)),
                );
            let posted = topic("LeaderBondPosted(address,uint256,uint256)"@);
            let subscribed = topic("FollowerSubscribed(address,address,uint256,bytes32)"@);
            let executed = topic("TradeExecuted(address,address,uint256,bool,uint64)"@);
            let completed = topic("SettlementCompleted(address,uint256,int256,uint64)"@);
            let flagged = topic("DegradationFlagged(uint256,address,address,bytes32,bytes32)"@);
            let opened = topic("DisputeOpened(uint256,address)"@);
            let ruled = topic("ArbiterRuled(uint256,uint256,bool,bytes32)"@);
            let slashed = topic("BondSlashed(address,uint256,uint256)"@);
            &&& chis.contains_key(posted)
            &&& chis.contains_key(subscribed)
            &&& chis.contains_key(executed)
            &&& chis.contains_key(completed)
            &&& chis.contains_key(flagged)
            &&& chis.contains_key(opened)
            &&& chis.contains_key(ruled)
            &&& chis.contains_key(slashed)
            &&& forall|k: Seq<char>| #[trigger] chis.contains_key(k) ==> {
                ||| k == posted
                ||| k == subscribed
                ||| k == executed
                ||| k == completed
                ||| k == flagged
                ||| k == opened
                ||| k == ruled
                ||| k == slashed
            }
            &&& seq![
                posted,
                subscribed,
                executed,
                completed,
                flagged,
                opened,
                ruled,
                slashed,
            ].no_duplicates() ==> {
                &&& chis[posted] == "leader-bond-posted"@
                &&& chis[subscribed] == "follower-subscribed"@
                &&& chis[executed] == "trade-executed"@
                &&& chis[completed] == "settlement-completed"@
                &&& chis[flagged] == "degradation-detected"@
                &&& chis[opened] == "dispute-opened"@
                &&& chis[ruled] == "ruling"@
                &&& chis[slashed] == "bond-slashed"@
            }
        }),
{
    let events = documented_events();
    let chis = chis_by_topic(events);
    assert(events[0] == ("leader-bond-posted"@, "LeaderBondPosted(address,uint256,uint256)"@));
    assert(events[1] == ("follower-subscribed"@, "FollowerSubscribed(address,address,uint256,bytes32)"@));
    assert(events[2] == ("trade-executed"@, "TradeExecuted(address,address,uint256,bool,uint64)"@));
    assert(events[3] == ("settlement-completed"@, "SettlementCompleted(address,uint256,int256,uint64)"@));
    assert(events[4] == ("degradation-detected"@, "DegradationFlagged(uint256,address,address,bytes32,bytes32)"@));
    assert(events[5] == ("dispute-opened"@, "DisputeOpened(uint256,address)"@));
    assert(events[6] == ("ruling"@, "ArbiterRuled(uint256,uint256,bool,bytes32)"@));
    assert(events[7] == ("bond-slashed"@, "BondSlashed(address,uint256,uint256)"@));
    law_listed_event_is_found(events, 0);
    law_listed_event_is_found(events, 1);
    law_listed_event_is_found(events, 2);
    law_listed_event_is_found(events, 3);
    law_listed_event_is_found(events, 4);
    law_listed_event_is_found(events, 5);
    law_listed_event_is_found(events, 6);
    law_listed_event_is_found(events, 7);
    let topics = Seq::new(8, |i: int| topic_of(events[i].1));
    let listed = seq![
        topic_of("LeaderBondPosted(address,uint256,uint256)"@),
        topic_of("FollowerSubscribed(address,address,uint256,bytes32)"@),
        topic_of("TradeExecuted(address,address,uint256,bool,uint64)"@),
        topic_of("SettlementCompleted(address,uint256,int256,uint64)"@),
        topic_of("DegradationFlagged(uint256,address,address,bytes32,bytes32)"@),
        topic_of("DisputeOpened(uint256,address)"@),
        topic_of("ArbiterRuled(uint256,uint256,bool,bytes32)"@),
        topic_of("BondSlashed(address,uint256,uint256)"@),
    ];
    assert(listed =~= topics);
    if listed.no_duplicates() {
        assert forall|i: int, j: int| 0 <= i < j < 8 implies topic_of((#[trigger] events[j]).1)
            != topic_of((#[trigger] events[i]).1) by {
            assert(topics[i] != topics[j]);
        }
    }
    assert forall|k: Seq<char>| #[trigger] chis.contains_key(k) implies exists|i: int|
        0 <= i < 8 && topic_of((#[trigger] events[i]).1) == k by {
        law_table_holds_listed_events_only(events, k);
    }
}

} // verus!
