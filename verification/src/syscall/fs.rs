use vstd::prelude::*;
use std::sync::Arc;
use crate::fs::File;
use crate::fs::mail::{MailBox, MailBoxBuffer, MAIL_RING_BUFFER_SIZE, clipped, law_ring_write_in_order, law_ring_read_in_order};
use crate::task::manager::{TaskManager, finds_mailbox};

verus! {

/// Writes `buf` to the file open at descriptor `fd` and returns the count
/// that file reports; -1 when `fd` names no open file.
pub fn sys_write<F: File>(fd_table: &Vec<Option<Arc<F>>>, fd: usize, buf: &[u8]) -> (r: isize)
    ensures
        fd >= fd_table@.len() || fd_table@[fd as int] is None ==> r == -1,
        fd < fd_table@.len() && fd_table@[fd as int] is Some ==> exists|n: usize|
            #[trigger] call_ensures(F::write, (&*fd_table@[fd as int].unwrap(), buf), n) && r == n as isize,
{
    if fd >= fd_table.len() {
        return -1;
    }
    match &fd_table[fd] {
        Some(file) => {
            let file = file.clone();
            file.write(buf) as isize
        },
        None => -1,
    }
}

/// Reads from the file open at descriptor `fd` into `buf` and returns the
/// count that file reports; -1, with `buf` untouched, when `fd` names no open
/// file.
pub fn sys_read<F: File>(fd_table: &Vec<Option<Arc<F>>>, fd: usize, buf: &mut [u8]) -> (r: isize)
    ensures
        fd >= fd_table@.len() || fd_table@[fd as int] is None ==> r == -1 && final(buf)@ == old(buf)@,
        fd < fd_table@.len() && fd_table@[fd as int] is Some ==> exists|n: usize, b: &mut [u8]|
            #[trigger] call_ensures(F::read, (&*fd_table@[fd as int].unwrap(), b), n)
                && b@ == old(buf)@ && final(b)@ == final(buf)@ && r == n as isize,
{
    if fd >= fd_table.len() {
        return -1;
    }
    match &fd_table[fd] {
        Some(file) => {
            let file = file.clone();
            file.read(buf) as isize
        },
        None => -1,
    }
}

/// What `close(fd)` answers as `r` and makes of the descriptor table
/// `before` (giving `after`).
pub open spec fn close_done<T>(before: Seq<Option<T>>, after: Seq<Option<T>>, fd: usize, r: int) -> bool {
    &&& fd >= before.len() || before[fd as int] is None ==> r == -1 && after == before
    &&& fd < before.len() && before[fd as int] is Some ==> r == 0 && after == before.update(fd as int, None)
}

/// Closes descriptor `fd`: 0 and the slot emptied when a file was open
/// there, else -1 and the table unchanged.
pub fn sys_close<T>(fd_table: &mut Vec<Option<T>>, fd: usize) -> (r: isize)
    ensures
        close_done(old(fd_table)@, final(fd_table)@, fd, r as int),
{
    if fd >= fd_table.len() {
        return -1;
    }
    if fd_table[fd].is_none() {
        return -1;
    }
    fd_table.set(fd, None);
    0
}

/// Number of bytes a mail call moves for a user length `len`: at most one
/// mail slot.
pub fn mail_call_len(len: usize) -> (r: usize)
    ensures
        r == clipped(len as int),
{
    if len < MAIL_RING_BUFFER_SIZE { len } else { MAIL_RING_BUFFER_SIZE }
}

/// What receiving a mail for `pid` answers as `r`, makes of the mailbox
/// registry `before` (giving `after`) and of the caller's buffer `b0`
/// (giving `b1`): the mailbox is found or made; -1 when the buffer is not
/// mapped; for length 0, 0 or -1 as a mail waits or not; else -1 with the
/// buffer kept, or the count copied, which fits the buffer, with the rest
/// of the buffer kept.
pub open spec fn mail_read_done(
    before: Map<usize, Arc<MailBox>>,
    after: Map<usize, Arc<MailBox>>,
    pid: usize,
    len: usize,
    mapped: bool,
    b0: Seq<u8>,
    b1: Seq<u8>,
    r: int,
) -> bool {
    &&& exists|mb: Arc<MailBox>| finds_mailbox(before, pid, after, mb)
    &&& b1.len() == b0.len()
    &&& !mapped ==> r == -1 && b1 == b0
    &&& mapped && len == 0 ==> (r == 0 || r == -1) && b1 == b0
    &&& mapped && len > 0 && r == -1 ==> b1 == b0
    &&& mapped && len > 0 && r != -1 ==> 0 <= r <= b0.len() && b1.skip(r) == b0.skip(r)
}

/// What sending the mail `data` to `pid` answers as `r` and makes of the
/// mailbox registry `before` (giving `after`): the mailbox is found or made;
/// -1 when the buffer is not mapped; for length 0, 0 or -1 as the box has
/// room or not; else -1 when it is full or the count sent, `data.len()`.
pub open spec fn mail_write_done(
    before: Map<usize, Arc<MailBox>>,
    after: Map<usize, Arc<MailBox>>,
    pid: usize,
    len: usize,
    mapped: bool,
    data: Seq<u8>,
    r: int,
) -> bool {
    &&& exists|mb: Arc<MailBox>| finds_mailbox(before, pid, after, mb)
    &&& !mapped ==> r == -1
    &&& mapped && len == 0 ==> r == 0 || r == -1
    &&& mapped && len > 0 ==> r == -1 || r == data.len()
}

/// Receives a mail for process `pid` (its mailbox is made on first use).
/// `len` is the length the caller gave; `mapped` tells whether the first
/// `min(len, 256)` bytes of the caller's buffer are mapped, and `buf` is that
/// part of it. -1 when they are not mapped; for length 0, 0 when a mail is
/// waiting and -1 when none is; else as `MailBox::read`.
pub fn sys_mail_read<T>(manager: &mut TaskManager<T>, pid: usize, len: usize, mapped: bool, buf: &mut [u8]) -> (r: isize)
    requires
        mapped ==> old(buf)@.len() == clipped(len as int),
    ensures
        mail_read_done(old(manager).mailboxes(), final(manager).mailboxes(), pid, len, mapped, old(buf)@, final(buf)@, r as int),
        final(manager).ready() == old(manager).ready(),
        mapped && len > 0 ==> exists|mb: Arc<MailBox>, b: &mut [u8]|
            finds_mailbox(old(manager).mailboxes(), pid, final(manager).mailboxes(), mb)
                && #[trigger] call_ensures(MailBox::read, (&*mb, b), r) && b@ == old(buf)@ && final(b)@ == final(buf)@,
{
    let len = mail_call_len(len);
    let mb = manager.find_mailbox(pid);
    if !mapped {
        -1
    } else {
        if len == 0 {
            if mb.readable() {
                0
            } else {
                -1
            }
        } else {
            mb.read(buf)
        }
    }
}

/// Sends the caller's bytes as a mail to process `pid` (its mailbox is made
/// on first use). `len` is the length the caller gave; `mapped` tells whether
/// the first `min(len, 256)` bytes are mapped, and `data` is that part. -1
/// when they are not mapped; for length 0, 0 when the mailbox has room and -1
/// when it is full; else -1 when it is full and `data.len()` otherwise.
pub fn sys_mail_write<T>(manager: &mut TaskManager<T>, pid: usize, len: usize, mapped: bool, data: &[u8]) -> (r: isize)
    requires
        mapped ==> data@.len() == clipped(len as int),
    ensures
        mail_write_done(old(manager).mailboxes(), final(manager).mailboxes(), pid, len, mapped, data@, r as int),
        final(manager).ready() == old(manager).ready(),
        mapped && len > 0 ==> exists|mb: Arc<MailBox>|
            finds_mailbox(old(manager).mailboxes(), pid, final(manager).mailboxes(), mb)
                && #[trigger] call_ensures(MailBox::write, (&*mb, data), r),
{
    let len = mail_call_len(len);
    let mb = manager.find_mailbox(pid);
    if !mapped {
        -1
    } else {
        if len == 0 {
            if mb.writable() {
                0
            } else {
                -1
            }
        } else {
            mb.write(data)
        }
    }
}

/// A mail that `mail_write` to `pid` accepts is delivered as sent: the
/// receiver's mailbox is registered, and a ring behind its lock gains, at
/// the back of its queue, exactly the caller's bytes in their order (their
/// count is returned).
pub proof fn law_mail_write_delivers_in_order<T>()
    ensures
        forall|m: &mut TaskManager<T>, pid: usize, len: usize, data: &[u8], r: isize|
            #[trigger] call_ensures(sys_mail_write::<T>, (m, pid, len, true, data), r) && len > 0 && r != -1 ==> {
                &&& r as int == data@.len()
                &&& final(m).mailboxes().contains_key(pid)
                &&& exists|ring: &mut MailBoxBuffer| #[trigger] call_ensures(MailBoxBuffer::write, (ring, data), r)
                    && final(ring).mails() == (*ring).mails().push(data@)
            },
{
    law_ring_write_in_order();
    assert forall|m: &mut TaskManager<T>, pid: usize, len: usize, data: &[u8], r: isize|
        #[trigger] call_ensures(sys_mail_write::<T>, (m, pid, len, true, data), r) && len > 0 && r != -1 implies {
            &&& r as int == data@.len()
            &&& final(m).mailboxes().contains_key(pid)
            &&& exists|ring: &mut MailBoxBuffer| #[trigger] call_ensures(MailBoxBuffer::write, (ring, data), r)
                && final(ring).mails() == (*ring).mails().push(data@)
        } by {
        let mb = choose|mb: Arc<MailBox>|
            finds_mailbox((*m).mailboxes(), pid, final(m).mailboxes(), mb)
                && #[trigger] call_ensures(MailBox::write, (&*mb, data), r);
        let ring = choose|ring: &mut MailBoxBuffer| #[trigger] call_ensures(MailBoxBuffer::write, (ring, data), r);
        assert(data@.take(r as int) =~= data@);
    }
}

/// A mail that `mail_read` for `pid` hands back is the oldest one queued, as
/// sent: a ring behind the mailbox's lock loses its oldest mail, whose first
/// `r = min(its length, the buffer's length)` bytes land, in their order, at
/// the front of the caller's buffer, the rest of which is kept.
pub proof fn law_mail_read_receives_in_order<T>()
    ensures
        forall|m: &mut TaskManager<T>, pid: usize, len: usize, buf: &mut [u8], r: isize|
            #[trigger] call_ensures(sys_mail_read::<T>, (m, pid, len, true, buf), r) && len > 0 && r != -1 ==> {
                &&& final(m).mailboxes().contains_key(pid)
                &&& exists|ring: &mut MailBoxBuffer| {
                    let mail = (*ring).mails()[0];
                    &&& (*ring).mails().len() > 0
                    &&& r as int == (if mail.len() < buf@.len() { mail.len() as int } else { buf@.len() as int })
                    &&& final(buf)@.take(r as int) == mail.take(r as int)
                    &&& final(buf)@.skip(r as int) == buf@.skip(r as int)
                    &&& #[trigger] final(ring).mails() == (*ring).mails().drop_first()
                }
            },
{
    law_ring_read_in_order();
    assert forall|m: &mut TaskManager<T>, pid: usize, len: usize, buf: &mut [u8], r: isize|
        #[trigger] call_ensures(sys_mail_read::<T>, (m, pid, len, true, buf), r) && len > 0 && r != -1 implies {
            &&& final(m).mailboxes().contains_key(pid)
            &&& exists|ring: &mut MailBoxBuffer| {
                let mail = (*ring).mails()[0];
                &&& (*ring).mails().len() > 0
                &&& r as int == (if mail.len() < buf@.len() { mail.len() as int } else { buf@.len() as int })
                &&& final(buf)@.take(r as int) == mail.take(r as int)
                &&& final(buf)@.skip(r as int) == buf@.skip(r as int)
                &&& #[trigger] final(ring).mails() == (*ring).mails().drop_first()
            }
        } by {
        let (mb, b) = choose|mb: Arc<MailBox>, b: &mut [u8]|
            finds_mailbox((*m).mailboxes(), pid, final(m).mailboxes(), mb)
                && #[trigger] call_ensures(MailBox::read, (&*mb, b), r) && b@ == buf@ && final(b)@ == final(buf)@;
        let (ring, b2) = choose|ring: &mut MailBoxBuffer, b2: &mut [u8]|
            #[trigger] call_ensures(MailBoxBuffer::read, (ring, b2), r) && b2@ == b@ && final(b2)@ == final(b)@;
        assert(final(ring).mails() == (*ring).mails().drop_first());
    }
}

} // verus!
