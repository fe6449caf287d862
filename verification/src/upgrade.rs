//! The upgrade coordinator: the steps by which a running instance hands its
//! kernel channel to its successor over a rendezvous socket, and the steps
//! by which the successor takes it. Each function here decides the next
//! step from the outcome of the last; whoever drives them performs the
//! system calls in between.
use crate::decimal::{decimal_value, is_decimal, parse_decimal};
use crate::exit::EXIT_CLEAN;
use crate::text::same_text;
use vstd::prelude::*;

verus! {

/// The device through which the kernel talks to the driver.
pub const FUSE_DEVICE: &'static str = "/dev/fuse";

/// How many peers the rendezvous socket lets wait.
pub const LISTEN_BACKLOG: i32 = 1;

/// How many bytes of path a socket address holds.
pub const SUN_PATH_LEN: usize = 108;

/// The level at which a control message speaks of the socket itself.
pub const SOL_SOCKET: i32 = 1;

/// The kind of control message that carries open descriptors.
pub const SCM_RIGHTS: i32 = 1;

/// How many bytes one descriptor takes in a control message.
pub const DESCRIPTOR_SIZE: usize = 4;

/// What the control part of a message holds: the level and the kind of the
/// control message, how many bytes of payload it announces, and the first
/// descriptor of that payload.
#[derive(Clone, Copy, Debug, PartialEq, Eq, Structural)]
pub struct ControlHeader {
    pub level: i32,
    pub kind: i32,
    pub payload: usize,
    pub fd: i32,
}

/// `header` hands over exactly one open descriptor.
pub open spec fn carries_descriptor(header: ControlHeader) -> bool {
    &&& header.level == SOL_SOCKET
    &&& header.kind == SCM_RIGHTS
    &&& header.payload == DESCRIPTOR_SIZE
    &&& header.fd >= 0
}

/// The control header that hands over `fd`.
pub open spec fn header_for(fd: i32) -> ControlHeader {
    ControlHeader { level: SOL_SOCKET, kind: SCM_RIGHTS, payload: DESCRIPTOR_SIZE, fd }
}

/// The control header to send with `fd`.
pub fn descriptor_header(fd: i32) -> (header: ControlHeader)
    ensures
        header == header_for(fd),
{
    ControlHeader { level: SOL_SOCKET, kind: SCM_RIGHTS, payload: DESCRIPTOR_SIZE, fd }
}

/// Why an upgrade was given up. Each of these ends the process.
#[derive(Clone, Copy, Debug, PartialEq, Eq, Structural)]
pub enum UpgradeFailure {
    /// No socket could be created.
    Socket,
    /// The socket could not be bound to the rendezvous path.
    Bind,
    /// The socket could not be made to listen.
    Listen,
    /// No peer could be accepted.
    Accept,
    /// No open descriptor leads to the kernel device.
    NoDescriptor,
    /// The descriptor could not be sent.
    Send,
    /// The rendezvous socket could not be reached.
    Connect,
    /// No descriptor was received: the transfer failed, or what came
    /// carried no control message that hands over one descriptor.
    Receive,
    /// An outcome arrived that the step at hand does not produce.
    OutOfOrder,
}

/// The step at which the outgoing instance stands. Each step but the last
/// two names what is to be done next.
#[derive(Clone, Copy, Debug, PartialEq, Eq, Structural)]
pub enum Handoff {
    /// Create a local stream socket.
    CreateSocket,
    /// Remove a stale socket file, then bind `sock` to the rendezvous path.
    Bind { sock: i32 },
    /// Make `sock` listen for one peer.
    Listen { sock: i32 },
    /// Accept the peer on `sock`.
    Accept { sock: i32 },
    /// Find the descriptor of the kernel channel among the open ones.
    Locate { sock: i32, peer: i32 },
    /// Send `fd` to `peer` as ancillary data, under the control header
    /// that `descriptor_header` gives for it.
    Send { sock: i32, peer: i32, fd: i32 },
    /// Remove the socket file.
    Cleanup,
    /// The handoff is over; exit with this status.
    Done(i32),
    /// The handoff was given up.
    Aborted(UpgradeFailure),
}

/// What came of a step of the outgoing instance.
#[derive(Clone, Copy, Debug, PartialEq, Eq, Structural)]
pub enum HandoffEvent {
    /// What the system call of the step returned.
    Returned(i32),
    /// What the search for the kernel channel found.
    Located(Option<i32>),
    /// How many bytes went out with the descriptor, or a negative number.
    Sent(isize),
}

/// The step that follows `step` on `event`. A negative return gives the
/// handoff up, and so does an outcome that the step does not produce; a
/// handoff that is over or given up stays so.
pub open spec fn handoff_next(step: Handoff, event: HandoffEvent) -> Handoff {
    match (step, event) {
        (Handoff::Done(code), _) => Handoff::Done(code),
        (Handoff::Aborted(why), _) => Handoff::Aborted(why),
        (Handoff::CreateSocket, HandoffEvent::Returned(rc)) => if rc < 0 {
            Handoff::Aborted(UpgradeFailure::Socket)
        } else {
            Handoff::Bind { sock: rc }
        },
        (Handoff::Bind { sock }, HandoffEvent::Returned(rc)) => if rc < 0 {
            Handoff::Aborted(UpgradeFailure::Bind)
        } else {
            Handoff::Listen { sock }
        },
        (Handoff::Listen { sock }, HandoffEvent::Returned(rc)) => if rc < 0 {
            Handoff::Aborted(UpgradeFailure::Listen)
        } else {
            Handoff::Accept { sock }
        },
        (Handoff::Accept { sock }, HandoffEvent::Returned(rc)) => if rc < 0 {
            Handoff::Aborted(UpgradeFailure::Accept)
        } else {
            Handoff::Locate { sock, peer: rc }
        },
        (Handoff::Locate { sock, peer }, HandoffEvent::Located(found)) => match found {
            Some(fd) => Handoff::Send { sock, peer, fd },
            None => Handoff::Aborted(UpgradeFailure::NoDescriptor),
        },
        (Handoff::Send { sock, peer, fd }, HandoffEvent::Sent(count)) => if count < 0 {
            Handoff::Aborted(UpgradeFailure::Send)
        } else {
            Handoff::Cleanup
        },
        (Handoff::Cleanup, HandoffEvent::Returned(_)) => Handoff::Done(EXIT_CLEAN),
        _ => Handoff::Aborted(UpgradeFailure::OutOfOrder),
    }
}

/// Takes the outgoing instance one step further. It starts at
/// `Handoff::CreateSocket`.
pub fn exit_graceful_upgrade(step: Handoff, event: HandoffEvent) -> (next: Handoff)
    ensures
        next == handoff_next(step, event),
{
    match step {
        Handoff::Done(code) => Handoff::Done(code),
        Handoff::Aborted(why) => Handoff::Aborted(why),
        Handoff::CreateSocket => match event {
            HandoffEvent::Returned(rc) => if rc < 0 {
                Handoff::Aborted(UpgradeFailure::Socket)
            } else {
                Handoff::Bind { sock: rc }
            },
            _ => Handoff::Aborted(UpgradeFailure::OutOfOrder),
        },
        Handoff::Bind { sock } => match event {
            HandoffEvent::Returned(rc) => if rc < 0 {
                Handoff::Aborted(UpgradeFailure::Bind)
            } else {
                Handoff::Listen { sock }
            },
            _ => Handoff::Aborted(UpgradeFailure::OutOfOrder),
        },
        Handoff::Listen { sock } => match event {
            HandoffEvent::Returned(rc) => if rc < 0 {
                Handoff::Aborted(UpgradeFailure::Listen)
            } else {
                Handoff::Accept { sock }
            },
            _ => Handoff::Aborted(UpgradeFailure::OutOfOrder),
        },
        Handoff::Accept { sock } => match event {
            HandoffEvent::Returned(rc) => if rc < 0 {
                Handoff::Aborted(UpgradeFailure::Accept)
            } else {
                Handoff::Locate { sock, peer: rc }
            },
            _ => Handoff::Aborted(UpgradeFailure::OutOfOrder),
        },
        Handoff::Locate { sock, peer } => match event {
            HandoffEvent::Located(Some(fd)) => Handoff::Send { sock, peer, fd },
            HandoffEvent::Located(None) => Handoff::Aborted(UpgradeFailure::NoDescriptor),
            _ => Handoff::Aborted(UpgradeFailure::OutOfOrder),
        },
        Handoff::Send { sock, peer, fd } => match event {
            HandoffEvent::Sent(count) => if count < 0 {
                Handoff::Aborted(UpgradeFailure::Send)
            } else {
                Handoff::Cleanup
            },
            _ => Handoff::Aborted(UpgradeFailure::OutOfOrder),
        },
        Handoff::Cleanup => match event {
            HandoffEvent::Returned(_) => Handoff::Done(EXIT_CLEAN),
            _ => Handoff::Aborted(UpgradeFailure::OutOfOrder),
        },
    }
}

/// The step at which the incoming instance stands.
#[derive(Clone, Copy, Debug, PartialEq, Eq, Structural)]
pub enum Takeover {
    /// See whether the rendezvous socket file exists.
    Probe,
    /// Create a local stream socket.
    CreateSocket,
    /// Connect `sock` to the rendezvous path.
    Connect { sock: i32 },
    /// Receive the descriptor on `sock`.
    Receive { sock: i32 },
    /// Serve on the descriptor that was received; do not mount.
    Resume { fd: i32 },
    /// No handoff is pending: mount afresh.
    MountFresh,
    /// The takeover was given up.
    Aborted(UpgradeFailure),
}

/// What came of a step of the incoming instance.
#[derive(Clone, Copy, Debug, PartialEq, Eq, Structural)]
pub enum TakeoverEvent {
    /// Whether the rendezvous socket file exists.
    Probed(bool),
    /// What the system call of the step returned.
    Returned(i32),
    /// How many bytes came in, or a negative number, and what the control
    /// part of the message held, if it held a control message at all.
    Received { count: isize, header: Option<ControlHeader> },
}

/// The step that follows `step` on `event`. A negative return gives the
/// takeover up, and so does a message without a control message that hands
/// over one descriptor; only such a message leads to serving, and then on
/// the descriptor that it carries.
pub open spec fn takeover_next(step: Takeover, event: TakeoverEvent) -> Takeover {
    match (step, event) {
        (Takeover::Resume { fd }, _) => Takeover::Resume { fd },
        (Takeover::MountFresh, _) => Takeover::MountFresh,
        (Takeover::Aborted(why), _) => Takeover::Aborted(why),
        (Takeover::Probe, TakeoverEvent::Probed(exists)) => if exists {
            Takeover::CreateSocket
        } else {
            Takeover::MountFresh
        },
        (Takeover::CreateSocket, TakeoverEvent::Returned(rc)) => if rc < 0 {
            Takeover::Aborted(UpgradeFailure::Socket)
        } else {
            Takeover::Connect { sock: rc }
        },
        (Takeover::Connect { sock }, TakeoverEvent::Returned(rc)) => if rc < 0 {
            Takeover::Aborted(UpgradeFailure::Connect)
        } else {
            Takeover::Receive { sock }
        },
        (Takeover::Receive { sock }, TakeoverEvent::Received { count, header }) => if count >= 0
            && header is Some && carries_descriptor(header.unwrap()) {
            Takeover::Resume { fd: header.unwrap().fd }
        } else {
            Takeover::Aborted(UpgradeFailure::Receive)
        },
        _ => Takeover::Aborted(UpgradeFailure::OutOfOrder),
    }
}

/// Takes the incoming instance one step further. It starts at
/// `Takeover::Probe`.
pub fn start_graceful_upgrade(step: Takeover, event: TakeoverEvent) -> (next: Takeover)
    ensures
        next == takeover_next(step, event),
{
    match step {
        Takeover::Resume { fd } => Takeover::Resume { fd },
        Takeover::MountFresh => Takeover::MountFresh,
        Takeover::Aborted(why) => Takeover::Aborted(why),
        Takeover::Probe => match event {
            TakeoverEvent::Probed(exists) => if exists {
                Takeover::CreateSocket
            } else {
                Takeover::MountFresh
            },
            _ => Takeover::Aborted(UpgradeFailure::OutOfOrder),
        },
        Takeover::CreateSocket => match event {
            TakeoverEvent::Returned(rc) => if rc < 0 {
                Takeover::Aborted(UpgradeFailure::Socket)
            } else {
                Takeover::Connect { sock: rc }
            },
            _ => Takeover::Aborted(UpgradeFailure::OutOfOrder),
        },
        Takeover::Connect { sock } => match event {
            TakeoverEvent::Returned(rc) => if rc < 0 {
                Takeover::Aborted(UpgradeFailure::Connect)
            } else {
                Takeover::Receive { sock }
            },
            _ => Takeover::Aborted(UpgradeFailure::OutOfOrder),
        },
        Takeover::Receive { sock } => match event {
            TakeoverEvent::Received { count, header } => match header {
                Some(h) => if count >= 0 && h.level == SOL_SOCKET && h.kind == SCM_RIGHTS
                    && h.payload == DESCRIPTOR_SIZE && h.fd >= 0 {
                    Takeover::Resume { fd: h.fd }
                } else {
                    Takeover::Aborted(UpgradeFailure::Receive)
                },
                None => Takeover::Aborted(UpgradeFailure::Receive),
            },
            _ => Takeover::Aborted(UpgradeFailure::OutOfOrder),
        },
    }
}

/// One row of the process's table of open descriptors.
#[derive(Debug, PartialEq, Eq)]
pub struct FdEntry {
    /// The descriptor, as the table names it.
    pub name: String,
    /// What the descriptor leads to.
    pub target: String,
}

/// Row `i` is the first one that leads to the kernel device.
pub open spec fn is_first_fuse(entries: Seq<FdEntry>, i: int) -> bool {
    &&& 0 <= i < entries.len()
    &&& entries[i].target@ == FUSE_DEVICE@
    &&& forall|j: int| 0 <= j < i ==> (#[trigger] entries[j]).target@ != FUSE_DEVICE@
}

/// `name` names a descriptor: a number in decimal notation that fits.
pub open spec fn names_descriptor(name: Seq<char>) -> bool {
    is_decimal(name) && decimal_value(name) <= i32::MAX
}

/// Finds the descriptor of the kernel channel: the number that names the
/// first row that leads to the kernel device. Without such a row, or with
/// one whose name is no descriptor, there is none.
pub fn find_fuse_fd(entries: &Vec<FdEntry>) -> (r: Option<i32>)
    ensures
        match r {
            Some(fd) => exists|i: int|
                is_first_fuse(entries@, i) && names_descriptor(entries@[i].name@) && fd
                    == decimal_value(entries@[i].name@),
            None => (forall|i: int|
                0 <= i < entries@.len() ==> (#[trigger] entries@[i]).target@ != FUSE_DEVICE@)
                || exists|i: int|
                is_first_fuse(entries@, i) && !names_descriptor(entries@[i].name@),
        },
{
    let mut i: usize = 0;
    while i < entries.len()
        invariant
            i <= entries.len(),
            forall|j: int| 0 <= j < i ==> (#[trigger] entries@[j]).target@ != FUSE_DEVICE@,
        decreases entries.len() - i,
    {
        if same_text(entries[i].target.as_str(), FUSE_DEVICE) {
            assert(is_first_fuse(entries@, i as int));
            return match parse_decimal(entries[i].name.as_str()) {
                Some(n) => if n <= 0x7fff_ffff {
                    Some(n as i32)
                } else {
                    None
                },
                None => None,
            };
        }
        i = i + 1;
    }
    None
}

/// The path field of a socket address for `path`: its bytes, then zeros up
/// to the field's length. A path that is not plain ASCII, or that is
/// longer than the field, has none.
pub fn sun_path(path: &str) -> (r: Option<Vec<i8>>)
    ensures
        match r {
            Some(field) => {
                &&& path.is_ascii()
                &&& path@.len() <= SUN_PATH_LEN
                &&& field@.len() == SUN_PATH_LEN
                &&& forall|i: int| 0 <= i < path@.len() ==> field@[i] as int == path@[i] as int
                &&& forall|i: int| path@.len() <= i < SUN_PATH_LEN ==> field@[i] == 0
            },
            None => !path.is_ascii() || path@.len() > SUN_PATH_LEN,
        },
{
    if !path.is_ascii() {
        return None;
    }
    let len = path.unicode_len();
    if len > SUN_PATH_LEN {
        return None;
    }
    let mut field: Vec<i8> = Vec::new();
    let mut i: usize = 0;
    while i < SUN_PATH_LEN
        invariant
            i <= SUN_PATH_LEN,
            len == path@.len(),
            len <= SUN_PATH_LEN,
            path.is_ascii(),
            field@.len() == i,
            forall|j: int| 0 <= j < i && j < len ==> field@[j] as int == path@[j] as int,
            forall|j: int| len <= j < i ==> field@[j] == 0,
        decreases SUN_PATH_LEN - i,
    {
        if i < len {
            let b = path.get_ascii(i);
            assert(b < 128) by {
                assert('\0' <= path@[i as int] <= '\u{7f}');
            }
            field.push(b as i8);
        } else {
            field.push(0);
        }
        i = i + 1;
    }
    Some(field)
}

/// The outgoing instance does things in order: the descriptor that is sent
/// is the one that was located, the socket file is removed only after the
/// descriptor went out, and the handoff is over only after the removal.
pub proof fn law_handoff_keeps_order(step: Handoff, event: HandoffEvent)
    ensures
        handoff_next(step, event) matches Handoff::Send { sock, peer, fd } ==> step == (
        Handoff::Locate { sock, peer }) && event == HandoffEvent::Located(Some(fd)),
        handoff_next(step, event) == Handoff::Cleanup ==> step is Send && event is Sent
            && event->Sent_0 >= 0,
        handoff_next(step, event) matches Handoff::Done(code) ==> step == Handoff::Done(code) || (
        step == Handoff::Cleanup && code == EXIT_CLEAN),
{
}

/// A handoff that is over or given up stays as it is, and a step that
/// returns a negative number gives the handoff up.
pub proof fn law_handoff_fails_fast(step: Handoff, event: HandoffEvent)
    ensures
        step is Done || step is Aborted ==> handoff_next(step, event) == step,
        !(step is Done) && !(step is Aborted) && !(step is Cleanup) && event is Returned
            && event->Returned_0 < 0 ==> handoff_next(step, event) is Aborted,
        step is Send && (event matches HandoffEvent::Sent(count) && count < 0) ==> handoff_next(
            step,
            event,
        ) == Handoff::Aborted(UpgradeFailure::Send),
        step is Locate && event == HandoffEvent::Located(None) ==> handoff_next(step, event)
            == Handoff::Aborted(UpgradeFailure::NoDescriptor),
{
}

/// When every step succeeds, the handoff sends the located descriptor to
/// the accepted peer and ends with a clean exit after seven steps.
pub proof fn law_handoff_completes(
    sock: i32,
    bound: i32,
    listening: i32,
    peer: i32,
    fd: i32,
    sent: isize,
    removed: i32,
)
    requires
        sock >= 0,
        bound >= 0,
        listening >= 0,
        peer >= 0,
        sent >= 0,
    ensures
        ({
            let s1 = handoff_next(Handoff::CreateSocket, HandoffEvent::Returned(sock));
            let s2 = handoff_next(s1, HandoffEvent::Returned(bound));
            let s3 = handoff_next(s2, HandoffEvent::Returned(listening));
            let s4 = handoff_next(s3, HandoffEvent::Returned(peer));
            let s5 = handoff_next(s4, HandoffEvent::Located(Some(fd)));
            let s6 = handoff_next(s5, HandoffEvent::Sent(sent));
            let s7 = handoff_next(s6, HandoffEvent::Returned(removed));
            &&& s5 == Handoff::Send { sock, peer, fd }
            &&& s6 == Handoff::Cleanup
            &&& s7 == Handoff::Done(EXIT_CLEAN)
        }),
{
}

/// The incoming instance mounts afresh only when it found no rendezvous
/// socket, and serves on a descriptor only when the transfer succeeded and
/// brought a control message that hands over that descriptor.
pub proof fn law_takeover_never_races(step: Takeover, event: TakeoverEvent)
    ensures
        takeover_next(step, event) == Takeover::MountFresh ==> step == Takeover::MountFresh || (
        step == Takeover::Probe && event == TakeoverEvent::Probed(false)),
        takeover_next(step, event) matches Takeover::Resume { fd } ==> step == (Takeover::Resume {
            fd,
        }) || (step is Receive && (event matches TakeoverEvent::Received { count, header }
            && count >= 0 && header is Some && carries_descriptor(header.unwrap())
            && header.unwrap().fd == fd)),
        step is MountFresh || step is Resume || step is Aborted ==> takeover_next(step, event)
            == step,
{
}

/// A message that brings no control message, or one that hands over no
/// descriptor, gives the takeover up, however many bytes came with it.
pub proof fn law_takeover_needs_a_descriptor(sock: i32, count: isize, header: Option<ControlHeader>)
    requires
        header is None || !carries_descriptor(header.unwrap()),
    ensures
        takeover_next(Takeover::Receive { sock }, TakeoverEvent::Received { count, header })
            == Takeover::Aborted(UpgradeFailure::Receive),
{
}

/// What the outgoing instance sends is what the incoming instance takes:
/// the header made for a descriptor hands over that descriptor.
pub proof fn law_sent_header_is_taken(sock: i32, count: isize, fd: i32)
    requires
        count >= 0,
        fd >= 0,
    ensures
        carries_descriptor(header_for(fd)),
        takeover_next(
            Takeover::Receive { sock },
            TakeoverEvent::Received { count, header: Some(header_for(fd)) },
        ) == (Takeover::Resume { fd }),
{
}

/// When a rendezvous socket exists and every step succeeds, the incoming
/// instance ends up serving on the descriptor that it received.
pub proof fn law_takeover_completes(sock: i32, connected: i32, count: isize, fd: i32)
    requires
        sock >= 0,
        connected >= 0,
        count >= 0,
        fd >= 0,
    ensures
        ({
            let s1 = takeover_next(Takeover::Probe, TakeoverEvent::Probed(true));
            let s2 = takeover_next(s1, TakeoverEvent::Returned(sock));
            let s3 = takeover_next(s2, TakeoverEvent::Returned(connected));
            let s4 = takeover_next(
                s3,
                TakeoverEvent::Received { count, header: Some(header_for(fd)) },
            );
            s4 == Takeover::Resume { fd }
        }),
{
}

} // verus!
