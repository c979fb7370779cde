use vstd::prelude::*;
use crate::files::{File, Files, ids_unique};
use crate::settings::Broker;
use crate::text::{canonical, canonical_path};

verus! {

/// The two texts of one reading of the clock.
#[derive(Debug, Clone)]
pub struct Stamps {
    /// Display form, such as `2023-02-28 07:11:07.440591800 UTC`.
    pub display: String,
    /// RFC 3339 with milliseconds and a `Z` suffix.
    pub rfc3339: String,
}

/// Relies on std::time::SystemTime::now for the current time, taken as
/// seconds and nanoseconds since the Unix epoch (the epoch itself where the
/// clock reads earlier), and on chrono's `DateTime::from_timestamp` to write
/// it with chrono's `Display` and with `to_rfc3339_opts(Millis, true)`.
/// Nothing is promised of the value.
#[verifier::external_body]
fn utc_now() -> (r: Stamps) {
    let since = std::time::SystemTime::now().duration_since(std::time::UNIX_EPOCH).unwrap_or_default();
    let now = chrono::DateTime::<chrono::Utc>::from_timestamp(since.as_secs() as i64, since.subsec_nanos())
        .unwrap_or_default();
    Stamps {
        display: now.to_string(),
        rfc3339: now.to_rfc3339_opts(chrono::SecondsFormat::Millis, true),
    }
}

/// One measurement to publish: it goes to `topic` as the payload
/// `{"deviceId", "timestamp", "group", "measures": {name: version,
/// name + "DataType": "String"}}`.
#[derive(Debug, Clone)]
pub struct Measurement {
    pub topic: String,
    pub device_id: String,
    pub group: String,
    pub timestamp: String,
    pub name: String,
    pub version: String,
}

/// Whether an entry is about the file at `path`.
pub open spec fn path_matches(f: File, path: Seq<char>) -> bool {
    canonical(f.path@) == canonical(path)
}

/// The entries about the file at `path`, in order.
pub open spec fn matching(s: Seq<File>, path: Seq<char>) -> Seq<File>
    decreases s.len(),
{
    if s.len() == 0 {
        Seq::empty()
    } else {
        let rest = matching(s.drop_last(), path);
        if path_matches(s.last(), path) {
            rest.push(s.last())
        } else {
            rest
        }
    }
}

/// Whether a new version goes out to the broker: only where the stored
/// broker record says it is connected.
pub open spec fn publishes(result: Result<String, String>, broker: Option<Broker>) -> bool {
    result is Ok && broker is Some && broker->Some_0.connected
}

/// The update state an entry gets for `result`: the error text, or
/// "Success" where the version goes out, or the broker's unavailability
/// where it is not connected or its record could not be read.
pub open spec fn state_after(result: Result<String, String>, broker: Option<Broker>) -> Seq<char> {
    match result {
        Err(e) => e@,
        Ok(_) => if publishes(result, broker) { "Success"@ } else { "MQTT broker connection failed"@ },
    }
}

/// How one entry changes when the version of the file at `path` has been
/// resolved to `result`: an entry about another file stays as it is; one
/// about this file records the version (on success), the time and the
/// outcome.
pub open spec fn entry_updated(
    before: File,
    after: File,
    path: Seq<char>,
    result: Result<String, String>,
    broker: Option<Broker>,
    stamps: Stamps,
) -> bool {
    if !path_matches(before, path) {
        after == before
    } else {
        &&& after.id == before.id
        &&& after.name == before.name
        &&& after.enabled == before.enabled
        &&& after.path == before.path
        &&& after.mqtt_topic == before.mqtt_topic
        &&& after.last_update_utc@ == stamps.display@
        &&& after.update_state@ == state_after(result, broker)
        &&& after.last_version@ == match result {
            Ok(v) => v@,
            Err(_) => before.last_version@,
        }
    }
}

/// The measurement published for entry `f`.
pub open spec fn measurement_of(
    m: Measurement,
    f: File,
    version: Seq<char>,
    config: Broker,
    stamps: Stamps,
) -> bool {
    &&& m.topic@ == f.mqtt_topic@
    &&& m.name@ == f.name@
    &&& m.version@ == version
    &&& m.device_id@ == config.device_id@
    &&& m.group@ == config.device_group@
    &&& m.timestamp@ == stamps.rfc3339@
}

/// The whole effect of an update: every entry changes as `entry_updated`
/// says, and one measurement per entry about the file goes out, in order,
/// where `publishes` holds, none otherwise.
pub open spec fn update_spec(
    before: Seq<File>,
    after: Seq<File>,
    sent: Seq<Measurement>,
    path: Seq<char>,
    result: Result<String, String>,
    broker: Option<Broker>,
    config: Broker,
    stamps: Stamps,
) -> bool {
    &&& after.len() == before.len()
    &&& forall|i: int| 0 <= i < before.len()
        ==> entry_updated(#[trigger] before[i], after[i], path, result, broker, stamps)
    &&& sent.len() == if publishes(result, broker) { matching(before, path).len() } else { 0 }
    &&& forall|k: int| 0 <= k < sent.len() ==> measurement_of(
        #[trigger] sent[k],
        matching(before, path)[k],
        result->Ok_0@,
        config,
        stamps,
    )
}

/// Records the outcome of resolving the version of the file at `path` on
/// every entry about that file (compared as canonical paths), and returns
/// what to publish. `broker` is the stored broker record (`None` where it
/// could not be read); `config` is the live configuration, which gives the
/// device id and group.
pub fn update_and_publish(
    files: &mut Files,
    path: &str,
    result: &Result<String, String>,
    broker: Option<&Broker>,
    config: &Broker,
    stamps: &Stamps,
) -> (sent: Vec<Measurement>)
    requires
        old(files).wf(),
    ensures
        final(files).wf(),
        update_spec(
            old(files)@,
            final(files)@,
            sent@,
            path@,
            *result,
            match broker { Some(b) => Some(*b), None => None },
            *config,
            *stamps,
        ),
{
    let ghost before = files@;
    let ghost ob: Option<Broker> = match broker { Some(b) => Some(*b), None => None };
    let target = canonical_path(path);
    let publish = match (result, broker) {
        (Ok(_), Some(b)) => b.connected,
        _ => false,
    };
    let mut sent: Vec<Measurement> = Vec::new();
    let n = files.entries.len();
    let mut i: usize = 0;
    while i < n
        invariant
            n == before.len(),
            i <= n,
            files@.len() == n,
            target@ == canonical(path@),
            publish == publishes(*result, ob),
            ob == match broker { Some(b) => Some(*b), None => None::<Broker> },
            ids_unique(before),
            forall|j: int| 0 <= j < n ==> files@[j].id == before[j].id,
            forall|j: int| i <= j < n ==> files@[j] == before[j],
            forall|j: int| 0 <= j < i
                ==> entry_updated(#[trigger] before[j], files@[j], path@, *result, ob, *stamps),
            sent@.len() == if publish { matching(before.subrange(0, i as int), path@).len() } else { 0 },
            forall|k: int| 0 <= k < sent@.len() ==> measurement_of(
                #[trigger] sent@[k],
                matching(before.subrange(0, i as int), path@)[k],
                result->Ok_0@,
                *config,
                *stamps,
            ),
        decreases n - i,
    {
        let ghost pre = before.subrange(0, i as int);
        let ghost next = before.subrange(0, i + 1);
        assert(next.drop_last() =~= pre);
        assert(next.last() == before[i as int]);
        let here = canonical_path(files.entries[i].path.as_str());
        if here == target {
            let mut f = files.entries[i].snapshot();
            f.last_update_utc = stamps.display.clone();
            match result {
                Ok(v) => {
                    f.last_version = v.clone();
                    match broker {
                        Some(b) => {
                            if b.connected {
                                f.update_state = String::from_str("Success");
                                sent.push(Measurement {
                                    topic: f.mqtt_topic.clone(),
                                    device_id: config.device_id.clone(),
                                    group: config.device_group.clone(),
                                    timestamp: stamps.rfc3339.clone(),
                                    name: f.name.clone(),
                                    version: v.clone(),
                                });
                            } else {
                                f.update_state = String::from_str("MQTT broker connection failed");
                            }
                        },
                        None => {
                            f.update_state = String::from_str("MQTT broker connection failed");
                        },
                    }
                },
                Err(e) => {
                    f.update_state = e.clone();
                },
            }
            files.entries.set(i, f);
        }
        i = i + 1;
    }
    assert(before.subrange(0, n as int) =~= before);
    assert forall|a: int, b: int| 0 <= a < n && 0 <= b < n && a != b
        implies files@[a].id != files@[b].id by {
        assert(files@[a].id == before[a].id);
        assert(files@[b].id == before[b].id);
    }
    sent
}

/// Reads the clock once and performs `update_and_publish` with it; the
/// stamps used are handed back beside the measurements.
pub fn record_version(
    files: &mut Files,
    path: &str,
    result: &Result<String, String>,
    broker: Option<&Broker>,
    config: &Broker,
) -> (r: (Vec<Measurement>, Stamps))
    requires
        old(files).wf(),
    ensures
        final(files).wf(),
        update_spec(
            old(files)@,
            final(files)@,
            r.0@,
            path@,
            *result,
            match broker { Some(b) => Some(*b), None => None },
            *config,
            r.1,
        ),
{
    let stamps = utc_now();
    let sent = update_and_publish(files, path, result, broker, config, &stamps);
    (sent, stamps)
}

/// The paths of the enabled entries, in order.
pub open spec fn enabled_entry_paths(s: Seq<File>) -> Seq<Seq<char>>
    decreases s.len(),
{
    if s.len() == 0 {
        Seq::empty()
    } else if s.last().enabled {
        enabled_entry_paths(s.drop_last()).push(s.last().path@)
    } else {
        enabled_entry_paths(s.drop_last())
    }
}

/// The paths whose versions are resolved at startup, whatever the file
/// system reports: those of every enabled entry, in order.
pub fn priming_paths(files: &Files) -> (r: Vec<String>)
    ensures
        r@.len() == enabled_entry_paths(files@).len(),
        forall|k: int| 0 <= k < r@.len() ==> #[trigger] r@[k]@ == enabled_entry_paths(files@)[k],
{
    let ghost s = files@;
    let mut r: Vec<String> = Vec::new();
    let mut i: usize = 0;
    while i < files.entries.len()
        invariant
            s == files@,
            i <= s.len(),
            r@.len() == enabled_entry_paths(s.subrange(0, i as int)).len(),
            forall|k: int| 0 <= k < r@.len()
                ==> #[trigger] r@[k]@ == enabled_entry_paths(s.subrange(0, i as int))[k],
        decreases s.len() - i,
    {
        assert(s.subrange(0, i + 1).drop_last() =~= s.subrange(0, i as int));
        assert(s.subrange(0, i + 1).last() == s[i as int]);
        if files.entries[i].enabled {
            r.push(files.entries[i].path.clone());
        }
        i = i + 1;
    }
    assert(s.subrange(0, s.len() as int) =~= s);
    r
}

} // verus!
