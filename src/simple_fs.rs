use vstd::prelude::*;
use vstd::utf8::encode_utf8;
use crate::dir_enum::{next_action, EnumAction};
use crate::entry::DirEntry;
use crate::regfs::{EnumSessions, FsError, Metadata};
use crate::reg_ops::text_eq;

verus! {

/// The one file of the demonstration projection.
pub const FILE_NAME: &'static str = "Hello.txt";

/// The content of that file.
pub const FILE_CONTENTS: &'static str = "Hello, Windows 10 projected FS!\r\n";

/// The file's content as bytes.
pub open spec fn file_bytes() -> Seq<u8> {
    encode_utf8(FILE_CONTENTS@)
}

/// A projection that holds one file at its root, to show the shape of a
/// backend.
pub struct SimpleFs {
    pub sessions: EnumSessions,
}

impl SimpleFs {
    pub fn new() -> (r: SimpleFs)
        ensures
            r.sessions.wf(),
            r.sessions@ == Map::<u128, crate::dir_enum::SimpleDirEnumerator>::empty(),
    {
        SimpleFs { sessions: EnumSessions::new() }
    }

    /// The root's listing: the one file.
    fn enum_root_dir() -> (r: Vec<DirEntry>)
        ensures
            r@.len() == 1,
            r@[0].name@ == FILE_NAME@,
            r@[0].size == Some(file_bytes().len() as u64),
    {
        let mut v: Vec<DirEntry> = Vec::new();
        let size = FILE_CONTENTS.as_bytes_vec().len() as u64;
        v.push(DirEntry::file(FILE_NAME.to_owned(), size));
        v
    }

    /// Begins listing session `id`; every path lists the root.
    pub fn start_dir_enum(&mut self, id: u128)
        requires
            old(self).sessions.wf(),
        ensures
            final(self).sessions.wf(),
            final(self).sessions@.dom() == old(self).sessions@.dom().insert(id),
            final(self).sessions@[id].cursor() == 0,
            final(self).sessions@[id].entries().len() == 1,
            final(self).sessions@[id].entries()[0].name@ == FILE_NAME@,
            final(self).sessions@[id].entries()[0].size == Some(
                file_bytes().len() as u64,
            ),
    {
        let entries = Self::enum_root_dir();
        self.sessions.start(id, entries);
    }

    pub fn end_dir_enum(&mut self, id: u128) -> (r: Result<(), FsError>)
        requires
            old(self).sessions.wf(),
        ensures
            final(self).sessions.wf(),
            r is Ok <==> old(self).sessions@.contains_key(id),
            r matches Err(e) ==> e == FsError::UnknownEnumeration,
            final(self).sessions@ == old(self).sessions@.remove(id),
    {
        self.sessions.end(id)
    }

    pub fn get_dir_enum(&mut self, id: u128, restart: bool) -> (r: Result<EnumAction, FsError>)
        requires
            old(self).sessions.wf(),
        ensures
            final(self).sessions.wf(),
            !old(self).sessions@.contains_key(id) ==> r == Err::<EnumAction, FsError>(
                FsError::UnknownEnumeration,
            ) && final(self).sessions@ == old(self).sessions@,
            old(self).sessions@.contains_key(id) ==> {
                let (e0, e1) = (old(self).sessions@[id], final(self).sessions@[id]);
                &&& e1.entries() == e0.entries()
                &&& e1.cursor() == if restart { 0 } else { e0.cursor() }
                &&& r == Ok::<EnumAction, FsError>(next_action(e1.cursor(), e1.entries().len() as int))
            },
    {
        self.sessions.get(id, restart)
    }

    /// The file's metadata; any other path is not found.
    pub fn get_placeholder_info(path: &str) -> (r: Result<Metadata, FsError>)
        ensures
            path@ == FILE_NAME@ ==> r == Ok::<Metadata, FsError>(
                Metadata { is_directory: false, size: file_bytes().len() as u64 },
            ),
            path@ != FILE_NAME@ ==> r == Err::<Metadata, FsError>(FsError::NotFound),
    {
        if !text_eq(path, FILE_NAME) {
            return Err(FsError::NotFound);
        }
        let size = FILE_CONTENTS.as_bytes_vec().len() as u64;
        Ok(Metadata { is_directory: false, size })
    }

    /// The file's whole content, to be delivered at offset 0; the requested
    /// window must lie within the file.
    pub fn get_file_data(path: &str, byte_offset: u64, length: u32) -> (r: Result<(Vec<u8>, u64), FsError>)
        requires
            path@ == FILE_NAME@ ==> byte_offset + length <= file_bytes().len(),
        ensures
            path@ == FILE_NAME@ ==> (r matches Ok((d, off)) && d@ == file_bytes()
                && off == 0),
            path@ != FILE_NAME@ ==> r == Err::<(Vec<u8>, u64), FsError>(FsError::NotFound),
    {
        if !text_eq(path, FILE_NAME) {
            return Err(FsError::NotFound);
        }
        Ok((FILE_CONTENTS.as_bytes_vec(), 0))
    }
}

} // verus!
