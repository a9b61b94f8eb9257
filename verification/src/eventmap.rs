//! The routing table: from the key of an event to the rules that are for it.

use vstd::prelude::*;
use vstd::std_specs::hash::group_hash_axioms;
use std::collections::HashMap;
use crate::config::event::{key_channel, key_id};
use crate::config::{DeviceConfig, EventConfig, Invocation, RunConfig};
use crate::event::{env_pairs_ok, event_to_key, spec_event_to_key, Event, EventView};

verus! {

/// The rules of `events` that are for the key `key`, in the order of `events`.
pub open spec fn matching(events: Seq<EventConfig>, key: u32) -> Seq<EventConfig>
    decreases events.len(),
{
    if events.len() == 0 {
        Seq::empty()
    } else if events.last().covers(key) {
        matching(events.drop_last(), key).push(events.last())
    } else {
        matching(events.drop_last(), key)
    }
}

/// Every rule stands under each key it is for: for each of its channels and
/// each of its ids, the rules that are for the key of its class, that
/// channel and that id include the rule.
pub proof fn lemma_routing_exhaustive(events: Seq<EventConfig>, r: int, channel: u8, id: u8)
    requires
        0 <= r < events.len(),
        events[r].channel@.contains(channel as u16),
        events[r].id@.contains(id as u16),
    ensures
        events[r].covers(spec_event_to_key(events[r].kind, channel, id)),
        matching(events, spec_event_to_key(events[r].kind, channel, id)).contains(events[r]),
    decreases events.len(),
{
    let key = spec_event_to_key(events[r].kind, channel, id);
    assert(events[r].covers(key));
    if r == events.len() - 1 {
        let found = matching(events, key);
        assert(found[found.len() - 1] == events[r]);
    } else {
        lemma_routing_exhaustive(events.drop_last(), r, channel, id);
        let before = matching(events.drop_last(), key);
        let at = choose|i: int| 0 <= i < before.len() && before[i] == events[r];
        assert(matching(events, key)[at] == events[r]);
    }
}

/// Under a key stand only rules that are for it: each of the rules that
/// `matching` gives for a key is one of `events` and is for the key.
pub proof fn lemma_routing_sound(events: Seq<EventConfig>, key: u32, i: int)
    requires
        0 <= i < matching(events, key).len(),
    ensures
        matching(events, key)[i].covers(key),
        events.contains(matching(events, key)[i]),
    decreases events.len(),
{
    let before = matching(events.drop_last(), key);
    if i < before.len() {
        lemma_routing_sound(events.drop_last(), key, i);
        let rule = before[i];
        let at = choose|j: int| 0 <= j < events.drop_last().len() && events.drop_last()[j] == rule;
        assert(events[at] == rule);
    } else {
        assert(events[events.len() - 1] == events.last());
    }
}

/// The number of keys that the rules of `events` are entered under, a key
/// counted once for each rule: the sum over the rules of channels times ids.
pub open spec fn key_count(events: Seq<EventConfig>) -> nat
    decreases events.len(),
{
    if events.len() == 0 {
        0
    } else {
        key_count(events.drop_last()) + events.last().channel@.len() * events.last().id@.len()
    }
}

/// The number of entries that a table of `events` needs, as a hint for its
/// size: `key_count`, or the largest `usize` where that is less.
pub fn count_events(events: &[EventConfig]) -> (n: usize)
    ensures
        n == if key_count(events@) <= usize::MAX {
            key_count(events@)
        } else {
            usize::MAX as nat
        },
{
    let mut n: usize = 0;
    let mut r: usize = 0;
    while r < events.len()
        invariant
            r <= events.len(),
            n == if key_count(events@.subrange(0, r as int)) <= usize::MAX {
                key_count(events@.subrange(0, r as int))
            } else {
                usize::MAX as nat
            },
        decreases events.len() - r,
    {
        let channels = events[r].channel.len();
        let ids = events[r].id.len();
        proof {
            let now = events@.subrange(0, r + 1);
            assert(now.drop_last() == events@.subrange(0, r as int));
            assert(now.last() == events@[r as int]);
            assert(0 <= channels * ids <= usize::MAX * usize::MAX) by (nonlinear_arith)
                requires
                    0 <= channels <= usize::MAX,
                    0 <= ids <= usize::MAX,
            ;
            assert(usize::MAX * usize::MAX <= u128::MAX) by (nonlinear_arith)
                requires
                    usize::MAX <= 0xffff_ffff_ffff_ffff,
            ;
        }
        let product: u128 = (channels as u128) * (ids as u128);
        if product >= (usize::MAX - n) as u128 {
            n = usize::MAX;
        } else {
            n = n + product as usize;
        }
        r = r + 1;
    }
    assert(events@.subrange(0, r as int) == events@);
    n
}

/// The routing table of the rules of one device.
#[derive(Debug)]
pub struct EventMap<'a> {
    pub map: HashMap<u32, Vec<&'a EventConfig>>,
}

/// The rule `rule` alone where `entered` holds, else no rule.
pub open spec fn entry(rule: EventConfig, entered: bool) -> Seq<EventConfig> {
    if entered {
        seq![rule]
    } else {
        Seq::empty()
    }
}

/// The rules that a list of references points at.
pub open spec fn rules_of(list: Seq<&EventConfig>) -> Seq<EventConfig> {
    Seq::new(list.len(), |i: int| *list[i])
}

/// The commands of `rule`, each with the rule.
pub open spec fn rule_runs(rule: EventConfig) -> Seq<(EventConfig, RunConfig)> {
    Seq::new(rule.run@.len(), |j: int| (rule, rule.run@[j]))
}

/// The commands to start for an event of value `value` that `rules` are
/// for, each with its rule: those of every rule that lets the value pass,
/// rule by rule in order.
pub open spec fn plan(rules: Seq<EventConfig>, value: u16) -> Seq<(EventConfig, RunConfig)>
    decreases rules.len(),
{
    if rules.len() == 0 {
        Seq::empty()
    } else if rules.last().admits(value) {
        plan(rules.drop_last(), value) + rule_runs(rules.last())
    } else {
        plan(rules.drop_last(), value)
    }
}

/// Whether `start` starts the command of `entry` for `event` on behalf of
/// the rule of `entry`: with the words of the command, with the variables of
/// the event as the rule hands them on, and waited for or not as the command
/// says.
pub open spec fn started(start: Invocation, entry: (EventConfig, RunConfig), event: EventView) -> bool {
    &&& *start.args == entry.1.args
    &&& start.detach == entry.1.detach
    &&& env_pairs_ok(start.env@, event, entry.0.remap, entry.0.float, entry.1.envconf)
}

impl<'a> EventMap<'a> {
    /// The rules entered under `key`, in the order of their entry.
    pub open spec fn rules_at(&self, key: u32) -> Seq<EventConfig> {
        if self.map@.contains_key(key) {
            rules_of(self.map@[key]@)
        } else {
            Seq::empty()
        }
    }

    /// Whether every key of the table has a rule.
    pub open spec fn wf(&self) -> bool {
        forall|key: u32| self.map@.contains_key(key) ==> (#[trigger] self.map@[key])@.len() > 0
    }

    /// The empty table, with room for `size` entries.
    pub fn with_capacity(size: usize) -> (r: Self)
        ensures
            r.wf(),
            forall|key: u32| r.rules_at(key) == Seq::<EventConfig>::empty(),
            r.map@ == Map::<u32, Vec<&'a EventConfig>>::empty(),
    {
        EventMap { map: HashMap::with_capacity(size) }
    }

    /// Enters `rule` under `key`, behind the rules that the key has.
    #[verifier::rlimit(50)]
    fn push_rule(&mut self, key: u32, rule: &'a EventConfig)
        requires
            old(self).wf(),
        ensures
            final(self).wf(),
            final(self).rules_at(key) == old(self).rules_at(key).push(*rule),
            forall|other: u32| other != key ==> final(self).rules_at(other) == old(self).rules_at(other),
            forall|other: u32|
                final(self).map@.contains_key(other) <==> (other == key || old(self).map@.contains_key(
                    other,
                )),
    {
        broadcast use group_hash_axioms;

        let mut list: Vec<&'a EventConfig> = match self.map.remove(&key) {
            Some(list) => list,
            None => Vec::new(),
        };
        let ghost before = list@;
        assert(rules_of(before) == old(self).rules_at(key));
        list.push(rule);
        assert(rules_of(list@) == rules_of(before).push(*rule));
        self.map.insert(key, list);
        assert forall|other: u32| other != key implies self.rules_at(other) == old(self).rules_at(
            other,
        ) by {
            assert(self.map@.contains_key(other) == old(self).map@.contains_key(other));
        }
    }

    /// Enters `rule` under the keys of its class with the channel `channel`
    /// and each of its ids.
    #[verifier::rlimit(50)]
    fn enter_channel(&mut self, rule: &'a EventConfig, channel: u8)
        requires
            old(self).wf(),
            rule.channel@.contains(channel as u16),
        ensures
            final(self).wf(),
            forall|key: u32|
                final(self).rules_at(key) == old(self).rules_at(key) + entry(
                    *rule,
                    #[trigger] rule.covers(key) && key_channel(key) == channel,
                ),
    {
        let mut id: u16 = 0;
        while id < 256
            invariant
                id <= 256,
                rule.channel@.contains(channel as u16),
                self.wf(),
                forall|key: u32|
                    self.rules_at(key) == old(self).rules_at(key) + entry(
                        *rule,
                        #[trigger] rule.covers(key) && key_channel(key) == channel && key_id(key)
                            < id,
                    ),
            decreases 256 - id,
        {
            if rule.id.contains(id) {
                let key = event_to_key(rule.kind, channel, id as u8);
                let ghost before = *self;
                self.push_rule(key, rule);
                proof {
                    assert(rule.covers(key) && key_channel(key) == channel && key_id(key) == id);
                    assert forall|other: u32|
                        self.rules_at(other) == old(self).rules_at(other) + entry(
                            *rule,
                            #[trigger] rule.covers(other) && key_channel(other) == channel
                                && key_id(other) < id + 1,
                        ) by {
                        if other == key {
                            assert(before.rules_at(key) == old(self).rules_at(key) + Seq::<
                                EventConfig,
                            >::empty());
                            assert(before.rules_at(key).push(*rule) == old(self).rules_at(key)
                                + seq![*rule]);
                        } else if rule.covers(other) && key_channel(other) == channel {
                            assert(key_id(other) != id);
                        }
                    }
                }
            }
            id = id + 1;
        }
    }

    /// Enters `rule` under every key it is for.
    #[verifier::rlimit(50)]
    fn enter_rule(&mut self, rule: &'a EventConfig)
        requires
            old(self).wf(),
        ensures
            final(self).wf(),
            forall|key: u32|
                final(self).rules_at(key) == old(self).rules_at(key) + entry(
                    *rule,
                    #[trigger] rule.covers(key),
                ),
    {
        let mut channel: u16 = 0;
        while channel < 256
            invariant
                channel <= 256,
                self.wf(),
                forall|key: u32|
                    self.rules_at(key) == old(self).rules_at(key) + entry(
                        *rule,
                        #[trigger] rule.covers(key) && key_channel(key) < channel,
                    ),
            decreases 256 - channel,
        {
            if rule.channel.contains(channel) {
                let ghost before = *self;
                self.enter_channel(rule, channel as u8);
                proof {
                    assert forall|key: u32|
                        self.rules_at(key) == old(self).rules_at(key) + entry(
                            *rule,
                            #[trigger] rule.covers(key) && key_channel(key) < channel + 1,
                        ) by {
                        let here = rule.covers(key) && key_channel(key) == channel;
                        let earlier = rule.covers(key) && key_channel(key) < channel;
                        assert(self.rules_at(key) == before.rules_at(key) + entry(*rule, here));
                        assert(before.rules_at(key) == old(self).rules_at(key) + entry(
                            *rule,
                            earlier,
                        ));
                        assert(old(self).rules_at(key) + entry(*rule, earlier) + entry(*rule, here)
                            == old(self).rules_at(key) + entry(*rule, earlier || here));
                    }
                }
            }
            channel = channel + 1;
        }
    }

    /// Enters each rule of `events` under every key it is for: the keys of
    /// its class with each of its channels and each of its ids.
    #[verifier::rlimit(50)]
    pub fn add_events(&mut self, events: &'a [EventConfig])
        requires
            old(self).wf(),
        ensures
            final(self).wf(),
            forall|key: u32|
                final(self).rules_at(key) == old(self).rules_at(key) + matching(events@, key),
    {
        let mut r: usize = 0;
        proof {
            assert forall|key: u32|
                self.rules_at(key) == old(self).rules_at(key) + #[trigger] matching(
                    events@.subrange(0, 0),
                    key,
                ) by {
                assert(old(self).rules_at(key) + Seq::<EventConfig>::empty() == old(self).rules_at(
                    key,
                ));
            }
        }
        while r < events.len()
            invariant
                r <= events.len(),
                self.wf(),
                forall|key: u32|
                    self.rules_at(key) == old(self).rules_at(key) + #[trigger] matching(
                        events@.subrange(0, r as int),
                        key,
                    ),
            decreases events.len() - r,
        {
            let rule: &'a EventConfig = &events[r];
            let ghost before = *self;
            let ghost done = events@.subrange(0, r as int);
            let ghost now = events@.subrange(0, r + 1);
            self.enter_rule(rule);
            proof {
                assert(now.drop_last() == done);
                assert(now.last() == *rule);
                assert forall|key: u32|
                    self.rules_at(key) == old(self).rules_at(key) + #[trigger] matching(now, key) by {
                    assert(self.rules_at(key) == before.rules_at(key) + entry(
                        *rule,
                        rule.covers(key),
                    ));
                    assert(before.rules_at(key) == old(self).rules_at(key) + matching(done, key));
                    assert(matching(now, key) == matching(done, key) + entry(
                        *rule,
                        rule.covers(key),
                    ));
                    assert(old(self).rules_at(key) + matching(done, key) + entry(
                        *rule,
                        rule.covers(key),
                    ) == old(self).rules_at(key) + (matching(done, key) + entry(
                        *rule,
                        rule.covers(key),
                    )));
                }
            }
            r = r + 1;
        }
        assert(events@.subrange(0, r as int) == events@);
    }

    /// The routing table of `events`: under each key stand the rules that are
    /// for it, in their order in `events`, and no key stands without a rule.
    pub fn from(events: &'a [EventConfig]) -> (r: Self)
        ensures
            r.wf(),
            forall|key: u32| r.rules_at(key) == matching(events@, key),
    {
        let size = count_events(events);
        let mut ret = EventMap::with_capacity(size);
        ret.add_events(events);
        assert forall|key: u32| ret.rules_at(key) == matching(events@, key) by {
            assert(Seq::<EventConfig>::empty() + matching(events@, key) == matching(events@, key));
        }
        ret
    }

    /// The routing table of the event rules of `device`; the empty table
    /// where it has none.
    pub fn from_device(device: &'a DeviceConfig) -> (r: Self)
        ensures
            r.wf(),
            forall|key: u32|
                r.rules_at(key) == matching(
                    match device.events {
                        Some(list) => list@,
                        None => Seq::empty(),
                    },
                    key,
                ),
    {
        match &device.events {
            Some(list) => Self::from(list.as_slice()),
            None => {
                let r = EventMap::with_capacity(0);
                assert forall|key: u32|
                    r.rules_at(key) == matching(Seq::<EventConfig>::empty(), key) by {}
                r
            },
        }
    }

    /// Hands an event to the rules that are for it: the rules under its key,
    /// in order. Each rule that lets the value of the event pass has its
    /// commands started, in order, each with the variables of the event under
    /// the names of the command. Gives the starts, in the order in which they
    /// are to be made.
    #[verifier::rlimit(50)]
    pub fn run_event(&self, event: &Event) -> (runs: Vec<Invocation<'a>>)
        ensures
            runs@.len() == plan(self.rules_at(event.spec_key()), event.value).len(),
            forall|j: int|
                0 <= j < runs@.len() ==> started(
                    #[trigger] runs@[j],
                    plan(self.rules_at(event.spec_key()), event.value)[j],
                    event@,
                ),
    {
        let key = event_to_key(event.kind, event.channel, event.id);
        let mut runs: Vec<Invocation<'a>> = Vec::new();
        let list = match self.lookup(key) {
            Some(list) => list,
            None => {
                return runs;
            },
        };
        let ghost rules = self.rules_at(key);
        let ghost value = event.value;
        let mut k: usize = 0;
        while k < list.len()
            invariant
                k <= list.len(),
                rules == rules_of(list@),
                rules == self.rules_at(event.spec_key()),
                value == event.value,
                runs@.len() == plan(rules.subrange(0, k as int), value).len(),
                forall|j: int|
                    0 <= j < runs@.len() ==> started(
                        #[trigger] runs@[j],
                        plan(rules.subrange(0, k as int), value)[j],
                        event@,
                    ),
            decreases list.len() - k,
        {
            let rule: &'a EventConfig = list[k];
            let ghost done = rules.subrange(0, k as int);
            let ghost now = rules.subrange(0, k + 1);
            proof {
                assert(now.drop_last() == done);
                assert(now.last() == *rule);
            }
            if rule.match_value(event) {
                let ghost base = runs@;
                let mut j: usize = 0;
                while j < rule.run.len()
                    invariant
                        j <= rule.run.len(),
                        value == event.value,
                        base.len() == plan(done, value).len(),
                        runs@.len() == base.len() + j,
                        forall|t: int| 0 <= t < base.len() ==> runs@[t] == base[t],
                        forall|t: int|
                            0 <= t < j ==> started(
                                #[trigger] runs@[base.len() + t],
                                (*rule, rule.run@[t]),
                                event@,
                            ),
                    decreases rule.run.len() - j,
                {
                    let run: &'a RunConfig = &rule.run[j];
                    let env = event.make_env(rule.remap.as_ref(), rule.float);
                    let pairs = env.to_map(run.envconf.as_ref());
                    let ghost before = runs@;
                    runs.push(run.run(pairs));
                    proof {
                        assert(started(runs@[base.len() + j], (*rule, rule.run@[j as int]), event@));
                        assert forall|t: int| 0 <= t < j + 1 implies started(
                            #[trigger] runs@[base.len() + t],
                            (*rule, rule.run@[t]),
                            event@,
                        ) by {
                            if t < j {
                                assert(runs@[base.len() + t] == before[base.len() + t]);
                            }
                        }
                    }
                    j = j + 1;
                }
                proof {
                    assert(plan(now, value) == plan(done, value) + rule_runs(*rule));
                    assert forall|t: int| 0 <= t < runs@.len() implies started(
                        #[trigger] runs@[t],
                        plan(now, value)[t],
                        event@,
                    ) by {
                        if t < base.len() {
                            assert(runs@[t] == base[t]);
                        } else {
                            assert(runs@[t] == runs@[base.len() + (t - base.len())]);
                        }
                    }
                }
            } else {
                assert(plan(now, value) == plan(done, value));
            }
            k = k + 1;
        }
        assert(rules.subrange(0, k as int) == rules);
        runs
    }

    /// The rules entered under `key`, in the order of their entry.
    pub fn lookup(&self, key: u32) -> (r: Option<&Vec<&'a EventConfig>>)
        ensures
            match r {
                Some(list) => rules_of(list@) == self.rules_at(key) && self.map@.contains_key(key),
                None => self.rules_at(key) == Seq::<EventConfig>::empty() && !self.map@.contains_key(
                    key,
                ),
            },
    {
        broadcast use group_hash_axioms;

        self.map.get(&key)
    }
}

} // verus!
