use vstd::prelude::*;

verus! {

/// The kinds of file-system events that a backend may be notified of.
#[derive(PartialEq, Eq, Structural, Clone, Copy, Debug)]
pub enum NotificationKind {
    FileOpened,
    NewFileCreated,
    FileOverwritten,
    PreDelete,
    PreRename,
    PreSetHardlink,
    FileRenamed,
    HardlinkCreated,
    FileHandleClosedNoModification,
    FileHandleClosedFileModified,
    FileHandleClosedFileDeleted,
    FilePreConvertToFull,
}

impl NotificationKind {
    pub open spec fn spec_is_pre_action(&self) -> bool {
        *self == NotificationKind::PreDelete || *self == NotificationKind::PreRename
    }

    /// Whether the event is announced before it happens, so that a backend
    /// can still veto it.
    #[verifier::when_used_as_spec(spec_is_pre_action)]
    pub fn is_pre_action(&self) -> (r: bool)
        ensures
            r == self.spec_is_pre_action(),
    {
        match self {
            NotificationKind::PreDelete | NotificationKind::PreRename => true,
            _ => false,
        }
    }
}

/// A backend's answer to a notification.
#[derive(PartialEq, Eq, Structural, Clone, Copy, Debug)]
pub enum Decision {
    Allow,
    /// Veto: the caller has no right to perform the action.
    DenyAccess,
    /// Veto: the object cannot be deleted or moved away.
    DenyDelete,
}

impl Decision {
    pub fn is_deny(&self) -> (r: bool)
        ensures
            r <==> *self != Decision::Allow,
    {
        match self {
            Decision::Allow => false,
            _ => true,
        }
    }
}

/// The optional callbacks a backend asks for, as a set of flag bits.
#[derive(PartialEq, Eq, Structural, Clone, Copy, Debug)]
pub struct OptionalFeatures {
    pub bits: u32,
}

pub const NOTIFY: u32 = 1;

pub const QUERY_FILE_NAME: u32 = 2;

pub const CANCEL_COMMAND: u32 = 4;

impl OptionalFeatures {
    pub fn empty() -> (r: OptionalFeatures)
        ensures
            r.bits == 0,
    {
        OptionalFeatures { bits: 0 }
    }

    pub fn notify() -> (r: OptionalFeatures)
        ensures
            r.bits == NOTIFY,
    {
        OptionalFeatures { bits: NOTIFY }
    }

    /// Whether every flag of `other` is set in `self`.
    pub fn contains(&self, other: OptionalFeatures) -> (r: bool)
        ensures
            r == (self.bits & other.bits == other.bits),
    {
        self.bits & other.bits == other.bits
    }

    /// Whether the notification callback is to be registered.
    pub fn wants_notifications(&self) -> (r: bool)
        ensures
            r == (self.bits & NOTIFY == NOTIFY),
    {
        self.contains(OptionalFeatures { bits: NOTIFY })
    }
}

/// The states of a virtualization session, entered strictly in this order.
#[derive(PartialEq, Eq, Structural, Clone, Copy, Debug)]
pub enum FsState {
    Ready,
    Running,
    Stopped,
}

/// Why a session could not start.
#[derive(PartialEq, Eq, Structural, Clone, Copy, Debug)]
pub enum StartError {
    /// The virtualization root could not be prepared or is inconsistent.
    Configuration,
    /// The operating system refused the registration, with this status.
    Platform(i32),
}

/// The lifecycle of a virtualization session: Ready, then Running once
/// registration succeeded, then Stopped. No state is entered twice.
pub struct Lifecycle {
    state: FsState,
}

impl Lifecycle {
    pub closed spec fn state(&self) -> FsState {
        self.state
    }

    pub fn new() -> (r: Lifecycle)
        ensures
            r.state() == FsState::Ready,
    {
        Lifecycle { state: FsState::Ready }
    }

    pub fn current(&self) -> (r: FsState)
        ensures
            r == self.state(),
    {
        self.state
    }

    /// Records the outcome of a start: Running after success, unchanged
    /// after a failure, which is handed back.
    pub fn start(&mut self, outcome: Result<(), StartError>) -> (r: Result<(), StartError>)
        requires
            old(self).state() == FsState::Ready,
        ensures
            r == outcome,
            final(self).state() == if outcome is Ok {
                FsState::Running
            } else {
                FsState::Ready
            },
    {
        if outcome.is_ok() {
            self.state = FsState::Running;
        }
        outcome
    }

    pub fn stop(&mut self)
        requires
            old(self).state() == FsState::Running,
        ensures
            final(self).state() == FsState::Stopped,
    {
        self.state = FsState::Stopped;
    }

    /// Whether tearing the session down must stop it first: a registration
    /// never outlives its session.
    pub fn needs_stop(&self) -> (r: bool)
        ensures
            r == (self.state() == FsState::Running),
    {
        self.state == FsState::Running
    }
}

#[verifier::external_type_specification]
#[verifier::external_body]
pub struct ExUuidError(uuid::Error);

/// Relies on uuid::Uuid::from_slice: it fails unless given exactly sixteen
/// bytes, and otherwise keeps them as they are (`into_bytes` hands them back).
#[verifier::external_body]
fn uuid_bytes_from_slice(b: &[u8]) -> (r: Result<[u8; 16], uuid::Error>)
    ensures
        r is Ok <==> b@.len() == 16,
        r matches Ok(id) ==> id@ == b@,
{
    uuid::Uuid::from_slice(b).map(uuid::Uuid::into_bytes)
}

/// The instance identifier kept in an existing virtualization root's marker
/// file. A marker that does not hold exactly one identifier makes the root
/// inconsistent.
pub fn adopt_instance_id(marker: &[u8]) -> (r: Result<[u8; 16], StartError>)
    ensures
        r is Ok <==> marker@.len() == 16,
        r matches Ok(id) ==> id@ == marker@,
        r matches Err(e) ==> e == StartError::Configuration,
{
    match uuid_bytes_from_slice(marker) {
        Ok(id) => Ok(id),
        Err(_) => Err(StartError::Configuration),
    }
}

} // verus!
