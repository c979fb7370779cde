use vstd::prelude::*;
use crate::debounce::{Pending, debounced, due_time, has_key, holds};
use crate::files::File;
use crate::pipeline::{Measurement, Stamps, path_matches, update_spec};
use crate::settings::Broker;

verus! {

/// Two registrations under one key, at `t1` and then at `t2` (within the
/// quiet period or not): the second call cancels the first action, and the
/// key holds exactly the second action, due one quiet period after `t2`.
pub proof fn lemma_last_call_wins<A>(
    s0: Seq<Pending<A>>,
    s1: Seq<Pending<A>>,
    s2: Seq<Pending<A>>,
    key: Seq<char>,
    a: A,
    b: A,
    t1: u64,
    t2: u64,
    delay: u64,
    cancelled: Option<A>,
)
    requires
        debounced(s0, s1, key, a, due_time(t1, delay)),
        debounced(s1, s2, key, b, due_time(t2, delay)),
        cancelled is None <==> !has_key(s1, key),
        cancelled matches Some(x) ==> exists|d: u64| holds(s1, key, x, d),
    ensures
        cancelled == Some(a),
        forall|x: A, d: u64| holds(s2, key, x, d) <==> (x == b && d == due_time(t2, delay)),
{
    assert(holds(s1, key, a, due_time(t1, delay)));
    assert(has_key(s1, key));
    let d = choose|d: u64| holds(s1, key, cancelled->Some_0, d);
    assert(holds(s1, key, cancelled->Some_0, d));
}

/// Registrations under two distinct keys do not disturb each other: each
/// key holds exactly its own action, on its own schedule.
pub proof fn lemma_keys_independent<A>(
    s0: Seq<Pending<A>>,
    s1: Seq<Pending<A>>,
    s2: Seq<Pending<A>>,
    k1: Seq<char>,
    k2: Seq<char>,
    a: A,
    b: A,
    d1: u64,
    d2: u64,
)
    requires
        k1 != k2,
        debounced(s0, s1, k1, a, d1),
        debounced(s1, s2, k2, b, d2),
    ensures
        forall|x: A, d: u64| holds(s2, k1, x, d) <==> (x == a && d == d1),
        forall|x: A, d: u64| holds(s2, k2, x, d) <==> (x == b && d == d2),
{
}

/// However many registrations under other keys follow one another, a key
/// keeps exactly the action and due time it held: its pending action is
/// neither cancelled nor delayed. `states[i + 1]` is the schedule after the
/// registration of `actions[i]` under `keys[i]`, due at `dues[i]`.
pub proof fn lemma_other_keys_never_disturb<A>(
    states: Seq<Seq<Pending<A>>>,
    keys: Seq<Seq<char>>,
    actions: Seq<A>,
    dues: Seq<u64>,
    key: Seq<char>,
    a: A,
    d: u64,
)
    requires
        states.len() == keys.len() + 1,
        actions.len() == keys.len(),
        dues.len() == keys.len(),
        forall|i: int| 0 <= i < keys.len() ==> #[trigger] keys[i] != key,
        forall|i: int| 0 <= i < keys.len()
            ==> debounced(#[trigger] states[i], states[i + 1], keys[i], actions[i], dues[i]),
        forall|x: A, e: u64| holds(states[0], key, x, e) <==> (x == a && e == d),
    ensures
        forall|x: A, e: u64| holds(states.last(), key, x, e) <==> (x == a && e == d),
    decreases keys.len(),
{
    if keys.len() > 0 {
        let n = keys.len() - 1;
        lemma_other_keys_never_disturb(
            states.drop_last(),
            keys.drop_last(),
            actions.drop_last(),
            dues.drop_last(),
            key,
            a,
            d,
        );
        assert(states.drop_last().last() == states[n]);
        assert(keys[n] != key);
        assert(debounced(states[n], states[n + 1], keys[n], actions[n], dues[n]));
    }
}

/// An update for the file at `path` touches exactly the entries about that
/// file: each of them records the time of the update, and every other entry
/// is left as it was.
pub proof fn lemma_update_touches_only_matching(
    before: Seq<File>,
    after: Seq<File>,
    sent: Seq<Measurement>,
    path: Seq<char>,
    result: Result<String, String>,
    broker: Option<Broker>,
    config: Broker,
    stamps: Stamps,
)
    requires
        update_spec(before, after, sent, path, result, broker, config, stamps),
    ensures
        after.len() == before.len(),
        forall|i: int| 0 <= i < before.len() && !path_matches(before[i], path) ==> after[i] == before[i],
        forall|i: int| 0 <= i < before.len() && path_matches(before[i], path)
            ==> after[i].last_update_utc@ == stamps.display@ && after[i].id == before[i].id,
{
    assert forall|i: int| 0 <= i < before.len() && !path_matches(before[i], path) implies after[i] == before[i] by {
        assert(crate::pipeline::entry_updated(before[i], after[i], path, result, broker, stamps));
    }
    assert forall|i: int| 0 <= i < before.len() && path_matches(before[i], path)
        implies after[i].last_update_utc@ == stamps.display@ && after[i].id == before[i].id by {
        assert(crate::pipeline::entry_updated(before[i], after[i], path, result, broker, stamps));
    }
}

/// While the stored broker record says the broker is not connected, a new
/// version publishes nothing, yet every entry about the file still records
/// the version and the broker's unavailability.
pub proof fn lemma_disconnected_broker_publishes_nothing(
    before: Seq<File>,
    after: Seq<File>,
    sent: Seq<Measurement>,
    path: Seq<char>,
    version: String,
    broker: Broker,
    config: Broker,
    stamps: Stamps,
)
    requires
        !broker.connected,
        update_spec(before, after, sent, path, Ok(version), Some(broker), config, stamps),
    ensures
        sent.len() == 0,
        forall|i: int| 0 <= i < before.len() && path_matches(before[i], path) ==> {
            &&& after[i].last_version@ == version@
            &&& after[i].update_state@ == "MQTT broker connection failed"@
        },
{
    assert forall|i: int| 0 <= i < before.len() && path_matches(before[i], path) implies {
        &&& after[i].last_version@ == version@
        &&& after[i].update_state@ == "MQTT broker connection failed"@
    } by {
        assert(crate::pipeline::entry_updated(before[i], after[i], path, Ok(version), Some(broker), stamps));
    }
}

} // verus!
