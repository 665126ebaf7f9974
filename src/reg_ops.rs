use vstd::prelude::*;
use vstd::utf8::{decode_utf8, encode_utf8, encode_utf8_decode_utf8};
use crate::entry::{sort_entries, sorted, DirEntry};

verus! {

/// The predefined top-level registry containers.
#[derive(PartialEq, Eq, Structural, Clone, Copy, Debug)]
pub enum Hive {
    ClassesRoot,
    CurrentUser,
    LocalMachine,
    Users,
    CurrentConfig,
}

pub open spec fn hive_name(h: Hive) -> Seq<char> {
    match h {
        Hive::ClassesRoot => "HKEY_CLASSES_ROOT"@,
        Hive::CurrentUser => "HKEY_CURRENT_USER"@,
        Hive::LocalMachine => "HKEY_LOCAL_MACHINE"@,
        Hive::Users => "HKEY_USERS"@,
        Hive::CurrentConfig => "HKEY_CURRENT_CONFIG"@,
    }
}

/// The separator between the segments of a registry path.
pub open spec fn is_sep(c: char) -> bool {
    c == '\\'
}

/// `i` is the position of the first separator of `s`.
pub open spec fn is_first_sep(s: Seq<char>, i: int) -> bool {
    &&& 0 <= i < s.len()
    &&& is_sep(s[i])
    &&& forall|j: int| 0 <= j < i ==> !is_sep(#[trigger] s[j])
}

/// `i` is the position of the last separator of `s`.
pub open spec fn is_last_sep(s: Seq<char>, i: int) -> bool {
    &&& 0 <= i < s.len()
    &&& is_sep(s[i])
    &&& forall|j: int| i < j < s.len() ==> !is_sep(#[trigger] s[j])
}

pub open spec fn has_sep(s: Seq<char>) -> bool {
    exists|i: int| 0 <= i < s.len() && is_sep(#[trigger] s[i])
}

pub open spec fn names_hive(s: Seq<char>) -> bool {
    exists|h: Hive| hive_name(h) == s
}

/// Where a key path leads: a whole hive, a subkey path under a hive, or
/// nowhere (the first segment names no hive).
#[derive(Debug, PartialEq, Eq)]
pub enum KeyLocation {
    Hive(Hive),
    Subkey(Hive, String),
    Absent,
}

/// `loc` is where the key path `path` leads: a path without separator is a
/// hive name; otherwise the text before the first separator names the hive
/// and the rest is the subkey path under it.
pub open spec fn locates(path: Seq<char>, loc: KeyLocation) -> bool {
    if !has_sep(path) {
        match loc {
            KeyLocation::Hive(h) => hive_name(h) == path,
            KeyLocation::Absent => !names_hive(path),
            _ => false,
        }
    } else {
        exists|i: int| #![trigger is_first_sep(path, i)] is_first_sep(path, i) && match loc {
            KeyLocation::Subkey(h, sub) => hive_name(h) == path.subrange(0, i) && sub@
                == path.subrange(i + 1, path.len() as int),
            KeyLocation::Absent => !names_hive(path.subrange(0, i)),
            _ => false,
        }
    }
}

impl Hive {
    pub fn name(&self) -> (r: &'static str)
        ensures
            r@ == hive_name(*self),
    {
        match self {
            Hive::ClassesRoot => "HKEY_CLASSES_ROOT",
            Hive::CurrentUser => "HKEY_CURRENT_USER",
            Hive::LocalMachine => "HKEY_LOCAL_MACHINE",
            Hive::Users => "HKEY_USERS",
            Hive::CurrentConfig => "HKEY_CURRENT_CONFIG",
        }
    }

    /// The hive called `name`, if any.
    pub fn from_name(name: &str) -> (r: Option<Hive>)
        ensures
            match r {
                Some(h) => hive_name(h) == name@,
                None => !names_hive(name@),
            },
    {
        let all = [
            Hive::ClassesRoot,
            Hive::CurrentUser,
            Hive::LocalMachine,
            Hive::Users,
            Hive::CurrentConfig,
        ];
        let mut i: usize = 0;
        while i < 5
            invariant
                all@ == seq![
                    Hive::ClassesRoot,
                    Hive::CurrentUser,
                    Hive::LocalMachine,
                    Hive::Users,
                    Hive::CurrentConfig,
                ],
                i <= 5,
                forall|k: int| 0 <= k < i ==> hive_name(#[trigger] all@[k]) != name@,
            decreases 5 - i,
        {
            let h = all[i];
            if text_eq(h.name(), name) {
                return Some(h);
            }
            i = i + 1;
        }
        assert forall|h: Hive| hive_name(h) != name@ by {
            let k: int = match h {
                Hive::ClassesRoot => 0,
                Hive::CurrentUser => 1,
                Hive::LocalMachine => 2,
                Hive::Users => 3,
                Hive::CurrentConfig => 4,
            };
            assert(all@[k] == h);
        }
        None
    }
}

/// Whether two texts are equal, compared by their UTF-8 bytes.
pub(crate) fn text_eq(a: &str, b: &str) -> (r: bool)
    ensures
        r == (a@ == b@),
{
    let x = a.as_bytes();
    let y = b.as_bytes();
    if x.len() != y.len() {
        return false;
    }
    let mut i: usize = 0;
    while i < x.len()
        invariant
            x@ == encode_utf8(a@),
            y@ == encode_utf8(b@),
            x@.len() == y@.len(),
            i <= x@.len(),
            forall|k: int| 0 <= k < i ==> x@[k] == y@[k],
        decreases x@.len() - i,
    {
        if x[i] != y[i] {
            return false;
        }
        i = i + 1;
    }
    proof {
        assert(x@ =~= y@);
        encode_utf8_decode_utf8(a@);
        encode_utf8_decode_utf8(b@);
    }
    true
}

/// The position of the first (or, with `last`, the last) separator of `s`.
fn find_sep(s: &str, last: bool) -> (r: Option<usize>)
    ensures
        match r {
            Some(i) => i < s@.len() && if last {
                is_last_sep(s@, i as int)
            } else {
                is_first_sep(s@, i as int)
            },
            None => !has_sep(s@),
        },
{
    let n = s.unicode_len();
    let mut found: Option<usize> = None;
    let mut i: usize = 0;
    while i < n
        invariant
            n == s@.len(),
            i <= n,
            match found {
                Some(k) => k < i && is_sep(s@[k as int]) && forall|j: int|
                    k < j < i ==> !is_sep(#[trigger] s@[j]),
                None => forall|j: int| 0 <= j < i ==> !is_sep(#[trigger] s@[j]),
            },
            !last ==> found is None,
        decreases n - i,
    {
        if s.get_char(i) == '\\' {
            if !last {
                return Some(i);
            }
            found = Some(i);
        }
        i = i + 1;
    }
    found
}

/// Where the key path `path` leads.
pub fn locate_key(path: &str) -> (r: KeyLocation)
    ensures
        locates(path@, r),
{
    match find_sep(path, false) {
        None => match Hive::from_name(path) {
            Some(h) => KeyLocation::Hive(h),
            None => KeyLocation::Absent,
        },
        Some(i) => {
            let n = path.unicode_len();
            let head = path.substring_char(0, i);
            let tail = path.substring_char(i + 1, n);
            let r = match Hive::from_name(head) {
                Some(h) => KeyLocation::Subkey(h, tail.to_owned()),
                None => KeyLocation::Absent,
            };
            assert(is_first_sep(path@, i as int));
            r
        },
    }
}

/// Splits a value path at its last separator: the key that holds the value
/// and the value's name. A path without separator names no value.
pub fn locate_value(path: &str) -> (r: Option<(KeyLocation, String)>)
    ensures
        r is None <==> !has_sep(path@),
        r matches Some((k, name)) ==> exists|i: int| #![trigger is_last_sep(path@, i)]
            is_last_sep(path@, i) && name@ == path@.subrange(i + 1, path@.len() as int)
                && locates(path@.subrange(0, i), k),
{
    match find_sep(path, true) {
        None => None,
        Some(i) => {
            let n = path.unicode_len();
            let parent = path.substring_char(0, i);
            let name = path.substring_char(i + 1, n);
            let k = locate_key(parent);
            assert(is_last_sep(path@, i as int));
            Some((k, name.to_owned()))
        },
    }
}

/// The entries of a key's listing, before sorting: each subkey as a
/// container, then each value as a leaf sized by its raw byte length.
pub open spec fn key_entries(subkeys: Seq<String>, values: Seq<(String, Vec<u8>)>) -> Seq<DirEntry> {
    Seq::new(subkeys.len(), |i: int| DirEntry { name: subkeys[i], size: None }) + Seq::new(
        values.len(),
        |i: int| DirEntry { name: values[i].0, size: Some(values[i].1@.len() as u64) },
    )
}

/// Every hive has an entry of its name in `s`.
pub open spec fn lists_every_hive(s: Seq<DirEntry>) -> bool {
    forall|h: Hive| #![trigger hive_name(h)] exists|i: int| 0 <= i < s.len() && (#[trigger] s[i]).name@ == hive_name(h)
}

/// The root of the projection lists every hive as a container, sorted by name.
pub fn root_listing() -> (r: Vec<DirEntry>)
    ensures
        sorted(r@),
        r@.len() == 5,
        forall|i: int| 0 <= i < r@.len() ==> (#[trigger] r@[i]).size is None && names_hive(r@[i].name@),
        lists_every_hive(r@),
{
    let mut v: Vec<DirEntry> = Vec::new();
    v.push(DirEntry::directory(Hive::ClassesRoot.name().to_owned()));
    v.push(DirEntry::directory(Hive::CurrentUser.name().to_owned()));
    v.push(DirEntry::directory(Hive::LocalMachine.name().to_owned()));
    v.push(DirEntry::directory(Hive::Users.name().to_owned()));
    v.push(DirEntry::directory(Hive::CurrentConfig.name().to_owned()));
    let ghost before = v@;
    assert(forall|i: int| 0 <= i < 5 ==> names_hive(#[trigger] before[i].name@)) by {
        assert(hive_name(Hive::ClassesRoot) == before[0].name@);
        assert(hive_name(Hive::CurrentUser) == before[1].name@);
        assert(hive_name(Hive::LocalMachine) == before[2].name@);
        assert(hive_name(Hive::Users) == before[3].name@);
        assert(hive_name(Hive::CurrentConfig) == before[4].name@);
    }
    let r = sort_entries(v);
    proof {
        broadcast use vstd::seq_lib::group_to_multiset_ensures;
        assert(r@.len() == r@.to_multiset().len());
        assert(before.len() == before.to_multiset().len());
        assert forall|i: int| 0 <= i < r@.len() implies (#[trigger] r@[i]).size is None && names_hive(r@[i].name@) by {
            assert(r@.to_multiset().count(r@[i]) > 0);
            assert(before.contains(r@[i]));
        }
        assert forall|h: Hive| #![trigger hive_name(h)] exists|i: int| 0 <= i < r@.len() && (#[trigger] r@[i]).name@ == hive_name(h) by {
            let k: int = match h {
                Hive::ClassesRoot => 0,
                Hive::CurrentUser => 1,
                Hive::LocalMachine => 2,
                Hive::Users => 3,
                Hive::CurrentConfig => 4,
            };
            assert(before.to_multiset().count(before[k]) > 0);
            assert(r@.contains(before[k]));
        }
    }
    r
}

/// The listing of a key: its subkeys as containers and its values as leaves
/// sized by their raw byte length, merged and sorted by name.
pub fn key_listing(subkeys: &Vec<String>, values: &Vec<(String, Vec<u8>)>) -> (r: Vec<DirEntry>)
    ensures
        sorted(r@),
        r@.to_multiset() == key_entries(subkeys@, values@).to_multiset(),
{
    let mut v: Vec<DirEntry> = Vec::new();
    let mut i: usize = 0;
    while i < subkeys.len()
        invariant
            i <= subkeys@.len(),
            v@ == key_entries(subkeys@, values@).subrange(0, i as int),
        decreases subkeys@.len() - i,
    {
        v.push(DirEntry { name: subkeys[i].clone(), size: None });
        assert(v@ =~= key_entries(subkeys@, values@).subrange(0, i + 1));
        i = i + 1;
    }
    let mut j: usize = 0;
    while j < values.len()
        invariant
            i == subkeys@.len(),
            j <= values@.len(),
            v@ == key_entries(subkeys@, values@).subrange(0, i + j),
        decreases values@.len() - j,
    {
        let size = values[j].1.len() as u64;
        v.push(DirEntry { name: values[j].0.clone(), size: Some(size) });
        assert(v@ =~= key_entries(subkeys@, values@).subrange(0, i + j + 1));
        j = j + 1;
    }
    assert(v@ =~= key_entries(subkeys@, values@));
    sort_entries(v)
}

} // verus!
