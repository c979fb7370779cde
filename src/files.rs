use vstd::prelude::*;
use crate::settings::{DBError, opt_or};

verus! {

/// A watched file, keyed by its id. Several ids may name the same path.
#[derive(Debug, Clone)]
pub struct File {
    pub id: u128,
    pub name: String,
    pub enabled: bool,
    /// When the version was last read, in UTC.
    pub last_update_utc: String,
    /// Outcome of the last update, such as "Success" or an error text.
    pub update_state: String,
    pub last_version: String,
    pub path: String,
    pub mqtt_topic: String,
}

/// Two entries with the same watch configuration: name, path, enable state
/// and topic agree.
pub open spec fn same_watch_config(a: File, b: File) -> bool {
    &&& a.enabled == b.enabled
    &&& a.mqtt_topic@ == b.mqtt_topic@
    &&& a.name@ == b.name@
    &&& a.path@ == b.path@
}

impl PartialEq for File {
    /// Compares the watch configuration only.
    fn eq(&self, other: &File) -> (r: bool) {
        self.enabled == other.enabled && self.mqtt_topic == other.mqtt_topic && self.name
            == other.name && self.path == other.path
    }
}

impl vstd::std_specs::cmp::PartialEqSpecImpl for File {
    open spec fn obeys_eq_spec() -> bool {
        true
    }

    open spec fn eq_spec(&self, other: &File) -> bool {
        same_watch_config(*self, *other)
    }
}

/// The fields of a new file entry.
#[derive(Debug, Clone)]
pub struct FileCreateParams {
    pub name: String,
    pub enabled: bool,
    pub path: String,
    pub mqtt_topic: String,
}

/// An edit of a file entry; each field that is given replaces the stored one.
#[derive(Debug, Clone, Default)]
pub struct FileUpdateParams {
    pub name: Option<String>,
    pub enabled: Option<bool>,
    pub path: Option<String>,
    pub mqtt_topic: Option<String>,
    pub last_update_utc: Option<String>,
    pub update_state: Option<String>,
    pub last_version: Option<String>,
}

impl FileUpdateParams {
    /// The path that the entry will have once this edit is applied: the one
    /// whose existence decides an enablement.
    pub fn target_path(&self, file: &File) -> (r: String)
        ensures
            r == opt_or(self.path, file.path),
    {
        match &self.path {
            Some(p) => p.clone(),
            None => file.path.clone(),
        }
    }
}

impl File {
    /// A copy of this entry.
    pub fn snapshot(&self) -> (r: File)
        ensures
            r == *self,
    {
        File {
            id: self.id,
            name: self.name.clone(),
            enabled: self.enabled,
            last_update_utc: self.last_update_utc.clone(),
            update_state: self.update_state.clone(),
            last_version: self.last_version.clone(),
            path: self.path.clone(),
            mqtt_topic: self.mqtt_topic.clone(),
        }
    }

    /// A new entry. It is enabled only if that was asked for and its path
    /// exists (`path_exists`); it has no version yet.
    pub fn create(id: u128, params: FileCreateParams, path_exists: bool) -> (r: File)
        ensures
            r.id == id,
            r.name == params.name,
            r.path == params.path,
            r.mqtt_topic == params.mqtt_topic,
            r.enabled == (params.enabled && path_exists),
            r.last_update_utc@ == Seq::<char>::empty(),
            r.update_state@ == Seq::<char>::empty(),
            r.last_version@ == Seq::<char>::empty(),
    {
        File {
            id,
            name: params.name,
            enabled: params.enabled && path_exists,
            last_update_utc: String::new(),
            update_state: String::new(),
            last_version: String::new(),
            path: params.path,
            mqtt_topic: params.mqtt_topic,
        }
    }

    /// Applies an edit. `path_exists` tells whether the path that the entry
    /// has after the edit exists; an enablement on a path that does not is
    /// turned into `enabled = false`.
    pub fn apply_update(&mut self, params: FileUpdateParams, path_exists: bool)
        ensures
            final(self).id == old(self).id,
            final(self).name == opt_or(params.name, old(self).name),
            final(self).path == opt_or(params.path, old(self).path),
            final(self).mqtt_topic == opt_or(params.mqtt_topic, old(self).mqtt_topic),
            final(self).last_update_utc == opt_or(params.last_update_utc, old(self).last_update_utc),
            final(self).update_state == opt_or(params.update_state, old(self).update_state),
            final(self).last_version == opt_or(params.last_version, old(self).last_version),
            final(self).enabled == match params.enabled {
                Some(e) => e && path_exists,
                None => old(self).enabled,
            },
    {
        if let Some(v) = params.name {
            self.name = v;
        }
        if let Some(v) = params.path {
            self.path = v;
        }
        if let Some(e) = params.enabled {
            self.enabled = e && path_exists;
        }
        if let Some(v) = params.mqtt_topic {
            self.mqtt_topic = v;
        }
        if let Some(v) = params.last_update_utc {
            self.last_update_utc = v;
        }
        if let Some(v) = params.update_state {
            self.update_state = v;
        }
        if let Some(v) = params.last_version {
            self.last_version = v;
        }
    }
}

/// The persisted set of watched files, one entry per id.
#[derive(Debug, Clone)]
pub struct Files {
    pub entries: Vec<File>,
}

/// Whether no two entries share an id.
pub open spec fn ids_unique(s: Seq<File>) -> bool {
    forall|i: int, j: int| 0 <= i < s.len() && 0 <= j < s.len() && i != j ==> s[i].id != s[j].id
}

/// Whether some entry has this id.
pub open spec fn has_id(s: Seq<File>, id: u128) -> bool {
    exists|i: int| 0 <= i < s.len() && s[i].id == id
}

impl Files {
    pub open spec fn view(&self) -> Seq<File> {
        self.entries@
    }

    /// Well formed: ids are unique.
    pub open spec fn wf(&self) -> bool {
        ids_unique(self.entries@)
    }

    /// The empty set.
    pub fn new() -> (r: Files)
        ensures
            r@ == Seq::<File>::empty(),
            r.wf(),
    {
        Files { entries: Vec::new() }
    }

    /// The position of the entry with this id.
    pub fn position(&self, id: u128) -> (r: Option<usize>)
        ensures
            match r {
                Some(i) => i < self@.len() && self@[i as int].id == id,
                None => !has_id(self@, id),
            },
    {
        let mut i: usize = 0;
        while i < self.entries.len()
            invariant
                i <= self.entries@.len(),
                forall|k: int| 0 <= k < i ==> self.entries@[k].id != id,
            decreases self.entries@.len() - i,
        {
            if self.entries[i].id == id {
                return Some(i);
            }
            i = i + 1;
        }
        None
    }

    /// Stores an entry: it replaces the entry with its id, or is added at the
    /// end.
    pub fn insert(&mut self, file: File)
        requires
            old(self).wf(),
        ensures
            final(self).wf(),
            has_id(old(self)@, file.id) ==> exists|i: int|
                0 <= i < old(self)@.len() && old(self)@[i].id == file.id
                    && final(self)@ == old(self)@.update(i, file),
            !has_id(old(self)@, file.id) ==> final(self)@ == old(self)@.push(file),
    {
        match self.position(file.id) {
            Some(i) => {
                self.entries.set(i, file);
            },
            None => {
                self.entries.push(file);
            },
        }
    }

    /// Applies an edit to the entry with this id; `path_exists` tells whether
    /// the path it has after the edit exists (see
    /// `FileUpdateParams::target_path`). Fails with `KeyNotFound` where no
    /// entry has the id, and then changes nothing.
    pub fn update(&mut self, id: u128, params: FileUpdateParams, path_exists: bool) -> (r: Result<(), DBError>)
        requires
            old(self).wf(),
        ensures
            final(self).wf(),
            r is Err <==> !has_id(old(self)@, id),
            r matches Err(e) ==> e matches DBError::KeyNotFound(m) && m@ == "key not found in storage"@
                && final(self)@ == old(self)@,
            r is Ok ==> exists|i: int| {
                &&& 0 <= i < old(self)@.len()
                &&& old(self)@[i].id == id
                &&& final(self)@.len() == old(self)@.len()
                &&& forall|j: int| 0 <= j < old(self)@.len() && j != i ==> final(self)@[j] == old(self)@[j]
                &&& final(self)@[i].id == id
                &&& final(self)@[i].name == opt_or(params.name, old(self)@[i].name)
                &&& final(self)@[i].path == opt_or(params.path, old(self)@[i].path)
                &&& final(self)@[i].mqtt_topic == opt_or(params.mqtt_topic, old(self)@[i].mqtt_topic)
                &&& final(self)@[i].last_update_utc == opt_or(params.last_update_utc, old(self)@[i].last_update_utc)
                &&& final(self)@[i].update_state == opt_or(params.update_state, old(self)@[i].update_state)
                &&& final(self)@[i].last_version == opt_or(params.last_version, old(self)@[i].last_version)
                &&& final(self)@[i].enabled == match params.enabled {
                    Some(e) => e && path_exists,
                    None => old(self)@[i].enabled,
                }
            },
    {
        match self.position(id) {
            Some(i) => {
                let mut f = self.entries[i].snapshot();
                f.apply_update(params, path_exists);
                self.entries.set(i, f);
                Ok(())
            },
            None => Err(DBError::KeyNotFound(String::from_str("key not found in storage"))),
        }
    }

    /// Removes the entry with this id and hands it back. Fails with
    /// `KeyNotFound` where no entry has the id, and then changes nothing.
    pub fn remove(&mut self, id: u128) -> (r: Result<File, DBError>)
        requires
            old(self).wf(),
        ensures
            final(self).wf(),
            r is Err <==> !has_id(old(self)@, id),
            r matches Err(e) ==> e matches DBError::KeyNotFound(m) && m@ == "key not found in storage"@
                && final(self)@ == old(self)@,
            r is Ok ==> exists|i: int| {
                &&& 0 <= i < old(self)@.len()
                &&& old(self)@[i] == r->Ok_0
                &&& r->Ok_0.id == id
                &&& final(self)@ == old(self)@.remove(i)
            },
    {
        match self.position(id) {
            Some(i) => {
                let f = self.entries.remove(i);
                proof {
                    assert forall|a: int, b: int|
                        0 <= a < self.entries@.len() && 0 <= b < self.entries@.len() && a != b
                        implies self.entries@[a].id != self.entries@[b].id by {
                        let oa = if a < i { a } else { a + 1 };
                        let ob = if b < i { b } else { b + 1 };
                        assert(self.entries@[a] == old(self).entries@[oa]);
                        assert(self.entries@[b] == old(self).entries@[ob]);
                    }
                }
                Ok(f)
            },
            None => Err(DBError::KeyNotFound(String::from_str("key not found in storage"))),
        }
    }
}

} // verus!
