use std::collections::HashMap;
use vstd::prelude::*;
use crate::dir_enum::{answers, next_action, EnumAction, EnumEvent, SimpleDirEnumerator};
use crate::entry::{sorted, DirEntry};
use crate::projfs::{Decision, NotificationKind};
use crate::reg_ops::{
    key_entries, key_listing, lists_every_hive, locate_key, locates, names_hive, root_listing,
    KeyLocation,
};

verus! {

broadcast use vstd::std_specs::hash::group_hash_axioms;

/// Why a request to a backend failed.
#[derive(PartialEq, Eq, Structural, Clone, Copy, Debug)]
pub enum FsError {
    /// No key, value or path of that name.
    NotFound,
    /// The enumeration id names no listing session: the caller broke the
    /// protocol.
    UnknownEnumeration,
    /// The registry or the system failed with this status.
    Platform(i32),
}

/// What a registry lookup gave.
pub enum Lookup<T> {
    Found(T),
    Missing,
    Failed(i32),
}

/// What the projection holds at a path.
#[derive(PartialEq, Eq, Structural, Clone, Copy, Debug)]
pub struct Metadata {
    pub is_directory: bool,
    pub size: u64,
}

/// The metadata of a value holding `bytes`: a file of that many bytes.
pub open spec fn value_metadata(bytes: Seq<u8>) -> Metadata {
    Metadata { is_directory: false, size: bytes.len() as u64 }
}

/// What a listing session is started on.
pub enum Listing {
    /// The root of the projection, which lists the hives.
    Root,
    /// A key, read as its subkey names and its values' names and raw bytes.
    Key(Vec<String>, Vec<(String, Vec<u8>)>),
    /// The path names no key.
    Missing,
    /// Reading the key failed with this status.
    Failed(i32),
}

/// What has to be read to list a path.
#[derive(Debug, PartialEq, Eq)]
pub enum ListingSource {
    /// The root of the projection: nothing to read.
    Root,
    /// The key the path leads to.
    Key(KeyLocation),
}

/// What has to be read to list `path`: the empty path is the root of the
/// projection, any other path a key.
pub fn listing_source(path: &str) -> (r: ListingSource)
    ensures
        path@.len() == 0 ==> r == ListingSource::Root,
        path@.len() > 0 ==> (r matches ListingSource::Key(loc) && locates(path@, loc)),
{
    if path.is_empty() {
        ListingSource::Root
    } else {
        ListingSource::Key(locate_key(path))
    }
}

/// The listing sessions of a backend, each under its enumeration id.
pub struct EnumSessions {
    table: HashMap<u128, SimpleDirEnumerator>,
}

impl EnumSessions {
    pub closed spec fn view(&self) -> Map<u128, SimpleDirEnumerator> {
        self.table@
    }

    pub open spec fn wf(&self) -> bool {
        forall|id: u128| #[trigger] self@.contains_key(id) ==> self@[id].wf()
    }

    pub fn new() -> (r: EnumSessions)
        ensures
            r.wf(),
            r@ == Map::<u128, SimpleDirEnumerator>::empty(),
    {
        EnumSessions { table: HashMap::new() }
    }

    pub fn contains(&self, id: u128) -> (r: bool)
        ensures
            r == self@.contains_key(id),
    {
        self.table.contains_key(&id)
    }

    /// Opens a session over `entries` under `id`, replacing any session
    /// that had the id.
    pub fn start(&mut self, id: u128, entries: Vec<DirEntry>)
        requires
            old(self).wf(),
        ensures
            final(self).wf(),
            final(self)@.dom() == old(self)@.dom().insert(id),
            forall|k: u128| k != id && #[trigger] old(self)@.contains_key(k) ==> final(self)@[k] == old(self)@[k],
            final(self)@[id].entries() == entries@,
            final(self)@[id].cursor() == 0,
            final(self)@[id].awaiting() == EnumAction::Done,
    {
        let e = SimpleDirEnumerator::new(entries);
        self.table.insert(id, e);
        assert forall|k: u128| #[trigger] self@.contains_key(k) implies self@[k].wf() by {
            if k != id {
                assert(old(self)@.contains_key(k));
            }
        }
    }

    /// Starts a pass of session `id`, from its first entry with `restart`.
    pub fn get(&mut self, id: u128, restart: bool) -> (r: Result<EnumAction, FsError>)
        requires
            old(self).wf(),
        ensures
            final(self).wf(),
            final(self)@.dom() == old(self)@.dom(),
            forall|k: u128| k != id && #[trigger] old(self)@.contains_key(k) ==> final(self)@[k] == old(self)@[k],
            !old(self)@.contains_key(id) ==> r == Err::<EnumAction, FsError>(FsError::UnknownEnumeration)
                && final(self)@ == old(self)@,
            old(self)@.contains_key(id) ==> {
                let (e0, e1) = (old(self)@[id], final(self)@[id]);
                &&& e1.entries() == e0.entries()
                &&& e1.cursor() == if restart { 0 } else { e0.cursor() }
                &&& r == Ok::<EnumAction, FsError>(next_action(e1.cursor(), e1.entries().len() as int))
                &&& e1.awaiting() == r->Ok_0
            },
    {
        match self.table.remove(&id) {
            None => Err(FsError::UnknownEnumeration),
            Some(mut e) => {
                let a = e.get_dir_enum(restart);
                self.table.insert(id, e);
                Ok(a)
            },
        }
    }

    /// The action that session `id` waits on.
    pub fn awaited(&self, id: u128) -> (r: Result<EnumAction, FsError>)
        ensures
            !self@.contains_key(id) ==> r == Err::<EnumAction, FsError>(FsError::UnknownEnumeration),
            self@.contains_key(id) ==> r == Ok::<EnumAction, FsError>(self@[id].awaiting()),
    {
        match self.table.get(&id) {
            None => Err(FsError::UnknownEnumeration),
            Some(e) => Ok(e.awaited()),
        }
    }

    /// The entry under the cursor of session `id`.
    pub fn current(&self, id: u128) -> (r: Option<&DirEntry>)
        requires
            self.wf(),
        ensures
            !self@.contains_key(id) ==> r is None,
            self@.contains_key(id) ==> {
                let e = self@[id];
                &&& e.cursor() < e.entries().len() ==> r == Some(&e.entries()[e.cursor()])
                &&& e.cursor() >= e.entries().len() ==> r is None
            },
    {
        match self.table.get(&id) {
            None => None,
            Some(e) => {
                assert(self@.contains_key(id) && self@[id] == *e);
                e.current()
            },
        }
    }

    /// Hands session `id` the outcome of the action it waits on.
    pub fn step(&mut self, id: u128, event: EnumEvent) -> (r: Result<EnumAction, FsError>)
        requires
            old(self).wf(),
            old(self)@.contains_key(id) ==> answers(old(self)@[id].awaiting(), event),
        ensures
            final(self).wf(),
            final(self)@.dom() == old(self)@.dom(),
            forall|k: u128| k != id && #[trigger] old(self)@.contains_key(k) ==> final(self)@[k] == old(self)@[k],
            !old(self)@.contains_key(id) ==> r == Err::<EnumAction, FsError>(FsError::UnknownEnumeration)
                && final(self)@ == old(self)@,
            old(self)@.contains_key(id) ==> {
                let (e0, e1) = (old(self)@[id], final(self)@[id]);
                let (c, len) = (e0.cursor(), e0.entries().len() as int);
                &&& e1.entries() == e0.entries()
                &&& r is Ok
                &&& e1.awaiting() == r->Ok_0
                &&& match event {
                    EnumEvent::Matched(true) => e1.cursor() == c && r->Ok_0 == EnumAction::Fill,
                    EnumEvent::BufferFull => e1.cursor() == c && r->Ok_0 == EnumAction::Done,
                    _ => e1.cursor() == c + 1 && r->Ok_0 == next_action(c + 1, len),
                }
            },
    {
        match self.table.remove(&id) {
            None => Err(FsError::UnknownEnumeration),
            Some(mut e) => {
                let a = e.step(event);
                self.table.insert(id, e);
                Ok(a)
            },
        }
    }

    /// Closes session `id`.
    pub fn end(&mut self, id: u128) -> (r: Result<(), FsError>)
        requires
            old(self).wf(),
        ensures
            final(self).wf(),
            r is Ok <==> old(self)@.contains_key(id),
            r matches Err(e) ==> e == FsError::UnknownEnumeration,
            final(self)@ == old(self)@.remove(id),
    {
        let r = match self.table.remove(&id) {
            None => Err(FsError::UnknownEnumeration),
            Some(_) => Ok(()),
        };
        assert forall|k: u128| #[trigger] self@.contains_key(k) implies self@[k].wf() by {
            assert(old(self)@.contains_key(k));
        }
        r
    }
}

/// The registry projection: its listing sessions and its answers to the
/// requests of the virtualization service. Reading the registry and writing
/// to the service's buffers are left to the caller, which hands in what it
/// read.
pub struct RegFs {
    pub sessions: EnumSessions,
}

impl RegFs {
    pub fn new() -> (r: RegFs)
        ensures
            r.sessions.wf(),
            r.sessions@ == Map::<u128, SimpleDirEnumerator>::empty(),
    {
        RegFs { sessions: EnumSessions::new() }
    }

    /// Begins listing session `id` over what the listed path holds.
    pub fn start_dir_enum(&mut self, id: u128, listing: Listing) -> (r: Result<(), FsError>)
        requires
            old(self).sessions.wf(),
        ensures
            final(self).sessions.wf(),
            match listing {
                Listing::Root => {
                    let s = final(self).sessions@[id].entries();
                    &&& r is Ok
                    &&& final(self).sessions@.dom() == old(self).sessions@.dom().insert(id)
                    &&& sorted(s) && s.len() == 5
                    &&& forall|i: int| 0 <= i < s.len() ==> (#[trigger] s[i]).size is None && names_hive(s[i].name@)
                    &&& lists_every_hive(s)
                },
                Listing::Key(subkeys, values) => {
                    let s = final(self).sessions@[id].entries();
                    &&& r is Ok
                    &&& final(self).sessions@.dom() == old(self).sessions@.dom().insert(id)
                    &&& sorted(s)
                    &&& s.to_multiset() == key_entries(subkeys@, values@).to_multiset()
                },
                Listing::Missing => r == Err::<(), FsError>(FsError::NotFound)
                    && final(self).sessions@ == old(self).sessions@,
                Listing::Failed(c) => r == Err::<(), FsError>(FsError::Platform(c))
                    && final(self).sessions@ == old(self).sessions@,
            },
            r is Ok ==> final(self).sessions@[id].cursor() == 0 && forall|k: u128|
                k != id && #[trigger] old(self).sessions@.contains_key(k)
                    ==> final(self).sessions@[k] == old(self).sessions@[k],
    {
        match listing {
            Listing::Root => {
                let entries = root_listing();
                self.sessions.start(id, entries);
                Ok(())
            },
            Listing::Key(subkeys, values) => {
                let entries = key_listing(&subkeys, &values);
                self.sessions.start(id, entries);
                Ok(())
            },
            Listing::Missing => Err(FsError::NotFound),
            Listing::Failed(c) => Err(FsError::Platform(c)),
        }
    }

    /// Ends listing session `id`.
    pub fn end_dir_enum(&mut self, id: u128) -> (r: Result<(), FsError>)
        requires
            old(self).sessions.wf(),
        ensures
            final(self).sessions.wf(),
            r is Ok <==> old(self).sessions@.contains_key(id),
            r matches Err(e) ==> e == FsError::UnknownEnumeration,
            final(self).sessions@ == old(self).sessions@.remove(id),
    {
        self.sessions.end(id)
    }

    /// Starts a pass of listing session `id`.
    pub fn get_dir_enum(&mut self, id: u128, restart: bool) -> (r: Result<EnumAction, FsError>)
        requires
            old(self).sessions.wf(),
        ensures
            final(self).sessions.wf(),
            !old(self).sessions@.contains_key(id) ==> r == Err::<EnumAction, FsError>(
                FsError::UnknownEnumeration,
            ) && final(self).sessions@ == old(self).sessions@,
            old(self).sessions@.contains_key(id) ==> {
                let (e0, e1) = (old(self).sessions@[id], final(self).sessions@[id]);
                &&& e1.entries() == e0.entries()
                &&& e1.cursor() == if restart { 0 } else { e0.cursor() }
                &&& r == Ok::<EnumAction, FsError>(next_action(e1.cursor(), e1.entries().len() as int))
            },
    {
        self.sessions.get(id, restart)
    }

    /// The answer to a placeholder request. `key` is the lookup of the path
    /// as a key; `value`, made only when no such key exists, is its lookup
    /// as a value.
    pub fn get_placeholder_info(key: Lookup<()>, value: Option<Lookup<Vec<u8>>>) -> (r: Result<
        Metadata,
        FsError,
    >)
        requires
            key is Missing <==> value is Some,
        ensures
            match key {
                Lookup::Found(_) => r == Ok::<Metadata, FsError>(
                    Metadata { is_directory: true, size: 0 },
                ),
                Lookup::Failed(c) => r == Err::<Metadata, FsError>(FsError::Platform(c)),
                Lookup::Missing => match value {
                    Some(Lookup::Found(b)) => r == Ok::<Metadata, FsError>(value_metadata(b@)),
                    Some(Lookup::Failed(c)) => r == Err::<Metadata, FsError>(FsError::Platform(c)),
                    _ => r == Err::<Metadata, FsError>(FsError::NotFound),
                },
            },
    {
        match key {
            Lookup::Found(_) => Ok(Metadata { is_directory: true, size: 0 }),
            Lookup::Failed(c) => Err(FsError::Platform(c)),
            Lookup::Missing => match value {
                Some(Lookup::Found(b)) => Ok(Metadata { is_directory: false, size: b.len() as u64 }),
                Some(Lookup::Failed(c)) => Err(FsError::Platform(c)),
                _ => Err(FsError::NotFound),
            },
        }
    }

    /// The bytes to deliver for a file-data request, and where they go: the
    /// value's whole raw content at offset 0, whatever window was asked for.
    pub fn get_file_data(value: Lookup<Vec<u8>>) -> (r: Result<(Vec<u8>, u64), FsError>)
        ensures
            match value {
                Lookup::Found(b) => r matches Ok((d, off)) && d@ == b@ && off == 0,
                Lookup::Missing => r == Err::<(Vec<u8>, u64), FsError>(FsError::NotFound),
                Lookup::Failed(c) => r == Err::<(Vec<u8>, u64), FsError>(FsError::Platform(c)),
            },
    {
        match value {
            Lookup::Found(b) => Ok((b, 0)),
            Lookup::Missing => Err(FsError::NotFound),
            Lookup::Failed(c) => Err(FsError::Platform(c)),
        }
    }

    /// The answer to a notification: the projection is read-only, so a
    /// pending deletion or rename is refused; everything else is only
    /// observed.
    pub fn notify(&self, kind: NotificationKind) -> (r: Decision)
        ensures
            kind == NotificationKind::PreDelete ==> r == Decision::DenyAccess,
            kind == NotificationKind::PreRename ==> r == Decision::DenyDelete,
            !kind.is_pre_action() ==> r == Decision::Allow,
    {
        match kind {
            NotificationKind::PreDelete => Decision::DenyAccess,
            NotificationKind::PreRename => Decision::DenyDelete,
            _ => Decision::Allow,
        }
    }
}

/// A value is reported alike everywhere: its entry in the key's listing,
/// its placeholder metadata and the data delivered for it all give its raw
/// byte length.
pub proof fn lemma_value_reported_alike(
    subkeys: Seq<String>,
    values: Seq<(String, Vec<u8>)>,
    i: int,
)
    requires
        0 <= i < values.len(),
    ensures
        key_entries(subkeys, values).contains(
            DirEntry { name: values[i].0, size: Some(value_metadata(values[i].1@).size) },
        ),
        !value_metadata(values[i].1@).is_directory,
        value_metadata(values[i].1@).size == values[i].1@.len() as u64,
{
    let s = key_entries(subkeys, values);
    assert(s[subkeys.len() + i] == DirEntry {
        name: values[i].0,
        size: Some(value_metadata(values[i].1@).size),
    });
}

} // verus!
