use vstd::prelude::*;
use std::sync::Arc;

verus! {

/// Largest number of bytes one mail holds.
pub const MAIL_RING_BUFFER_SIZE: usize = 256;

/// Number of mails a mailbox can hold at once.
pub const MAIL_NUM: usize = 16;

/// Fill state of the ring of mail slots.
#[derive(Copy, Clone, Debug, PartialEq, Eq, Structural)]
pub enum MailBufferStatus {
    FULL,
    EMPTY,
    NORMAL,
}

/// Bookkeeping of the ring: where the oldest mail sits, where the next one
/// goes, how many are queued and the derived flags. These are coupled, so
/// they are kept together and replaced in one assignment.
#[derive(Copy, Clone)]
struct Ring {
    head: usize,
    tail: usize,
    status: MailBufferStatus,
    writable: bool,
    readable: bool,
    cnt: isize,
}

/// A ring of `MAIL_NUM` slots of `MAIL_RING_BUFFER_SIZE` bytes each; slot `i`
/// holds a mail of `len[i]` bytes at `buffer[i * 256 ..]`.
pub struct MailBoxBuffer {
    buffer: [u8; 4096],
    len: [usize; 16],
    ring: Ring,
}

/// Index of the ring slot `k` places after `head`.
pub open spec fn slot_after(head: int, k: int) -> int {
    (head + k) % (MAIL_NUM as int)
}

/// Number of bytes of `data_len` that fit in one mail.
pub open spec fn clipped(data_len: int) -> int {
    if data_len < MAIL_RING_BUFFER_SIZE { data_len } else { MAIL_RING_BUFFER_SIZE as int }
}

/// Writing `data` to a mailbox whose queue is `q`: refused with -1 when
/// `MAIL_NUM` mails are queued, else the first `clipped(data.len())` bytes
/// become the newest mail and their count is returned.
pub open spec fn after_write(q: Seq<Seq<u8>>, data: Seq<u8>) -> (Seq<Seq<u8>>, int) {
    if q.len() >= MAIL_NUM {
        (q, -1)
    } else {
        let n = clipped(data.len() as int);
        (q.push(data.take(n)), n)
    }
}

/// Reading into a buffer holding `buf` from a mailbox whose queue is `q`:
/// refused with -1 when no mail is queued, else the oldest mail leaves the
/// queue, as many of its bytes as fit are copied to the front of the buffer,
/// the rest of the buffer is left as it was, and the copied count is returned.
pub open spec fn after_read(q: Seq<Seq<u8>>, buf: Seq<u8>) -> (Seq<Seq<u8>>, Seq<u8>, int) {
    if q.len() == 0 {
        (q, buf, -1)
    } else {
        let m = q[0];
        let n = if m.len() < buf.len() { m.len() as int } else { buf.len() as int };
        (q.drop_first(), m.take(n) + buf.skip(n), n)
    }
}

/// Shape every queue of a mailbox keeps: at most `MAIL_NUM` mails, none
/// longer than `MAIL_RING_BUFFER_SIZE` bytes.
pub open spec fn bounded(q: Seq<Seq<u8>>) -> bool {
    &&& q.len() <= MAIL_NUM
    &&& forall|k: int| 0 <= k < q.len() ==> #[trigger] q[k].len() <= MAIL_RING_BUFFER_SIZE
}

/// A mail written to an empty mailbox is what the next read hands back, cut
/// to one slot and to the reader's buffer, and the mailbox is empty again.
pub proof fn law_read_returns_written(data: Seq<u8>, buf: Seq<u8>)
    ensures
        ({
            let (q1, w) = after_write(Seq::empty(), data);
            let (q2, b, r) = after_read(q1, buf);
            &&& w == clipped(data.len() as int)
            &&& r == if w < buf.len() { w } else { buf.len() as int }
            &&& b.take(r) == data.take(r)
            &&& b.skip(r) == buf.skip(r)
            &&& q2 == Seq::<Seq<u8>>::empty()
        }),
{
    let (q1, w) = after_write(Seq::empty(), data);
    assert(q1[0] == data.take(w));
    let (q2, b, r) = after_read(q1, buf);
    assert(b.take(r) =~= data.take(r));
    assert(b.skip(r) =~= buf.skip(r));
    assert(q2 =~= Seq::<Seq<u8>>::empty());
}

/// First in, first out: on a mailbox holding some mails and room for more,
/// writing then reading gives what reading then writing gives.
pub proof fn law_read_write_commute(q: Seq<Seq<u8>>, data: Seq<u8>, buf: Seq<u8>)
    requires
        0 < q.len() < MAIL_NUM,
    ensures
        ({
            let (qw, w) = after_write(q, data);
            let (qwr, bw, rw) = after_read(qw, buf);
            let (qr, br, rr) = after_read(q, buf);
            let (qrw, w2) = after_write(qr, data);
            &&& qwr == qrw
            &&& bw == br
            &&& rw == rr
            &&& w == w2
        }),
{
    let (qw, w) = after_write(q, data);
    let (qr, br, rr) = after_read(q, buf);
    let (qrw, w2) = after_write(qr, data);
    assert(qw[0] == q[0]);
    assert(qw.drop_first() =~= qrw);
}

/// Whatever is written and read, a mailbox never holds more than `MAIL_NUM`
/// mails nor a mail longer than one slot, and a read never reports more
/// bytes than one slot or the reader's buffer holds.
pub proof fn law_bounded_preserved(q: Seq<Seq<u8>>, data: Seq<u8>, buf: Seq<u8>)
    requires
        bounded(q),
    ensures
        bounded(after_write(q, data).0),
        bounded(after_read(q, buf).0),
        after_read(q, buf).2 <= MAIL_RING_BUFFER_SIZE,
        after_read(q, buf).2 <= buf.len(),
        after_read(q, buf).1.len() == buf.len(),
{
    let q1 = after_write(q, data).0;
    assert forall|k: int| 0 <= k < q1.len() implies #[trigger] q1[k].len() <= MAIL_RING_BUFFER_SIZE by {
        if k < q.len() {
            assert(q1[k] == q[k]);
        }
    }
    let q2 = after_read(q, buf).0;
    assert forall|k: int| 0 <= k < q2.len() implies #[trigger] q2[k].len() <= MAIL_RING_BUFFER_SIZE by {
        assert(q2[k] == q[k + 1]);
    }
}

/// A write is refused exactly when `MAIL_NUM` mails are queued and a read
/// exactly when none is; a refused call changes nothing.
pub proof fn law_refusals(q: Seq<Seq<u8>>, data: Seq<u8>, buf: Seq<u8>)
    requires
        bounded(q),
    ensures
        (after_write(q, data).1 == -1) <==> q.len() == MAIL_NUM,
        (after_read(q, buf).2 == -1) <==> q.len() == 0,
        after_write(q, data).1 == -1 ==> after_write(q, data).0 == q,
        after_read(q, buf).2 == -1 ==> after_read(q, buf).0 == q && after_read(q, buf).1 == buf,
{
}


/// Writing to a ring queues exactly the first `min(data.len(), 256)` bytes
/// of `data`, in their order, behind the mails already there, and returns
/// their count; it is refused with -1, changing nothing, only when the ring
/// holds `MAIL_NUM` mails.
pub proof fn law_ring_write_in_order()
    ensures
        forall|ring: &mut MailBoxBuffer, data: &[u8], r: isize|
            #[trigger] call_ensures(MailBoxBuffer::write, (ring, data), r) ==> {
                &&& r == -1 <==> (*ring).mails().len() == MAIL_NUM
                &&& r == -1 ==> final(ring).mails() == (*ring).mails()
                &&& r != -1 ==> r as int == (if data@.len() < 256 { data@.len() as int } else { 256int })
                    && final(ring).mails() == (*ring).mails().push(data@.take(r as int))
            },
{
    assert forall|ring: &mut MailBoxBuffer, data: &[u8], r: isize|
        #[trigger] call_ensures(MailBoxBuffer::write, (ring, data), r) implies {
            &&& r == -1 <==> (*ring).mails().len() == MAIL_NUM
            &&& r == -1 ==> final(ring).mails() == (*ring).mails()
            &&& r != -1 ==> r as int == (if data@.len() < 256 { data@.len() as int } else { 256int })
                && final(ring).mails() == (*ring).mails().push(data@.take(r as int))
        } by {
    }
}

/// Reading from a ring hands back the oldest mail: as many of its first
/// bytes as fit, in their order, land at the front of the buffer, the rest
/// of the buffer is kept, their count is returned and the mail leaves the
/// ring; it is refused with -1, changing nothing, only when the ring is
/// empty.
pub proof fn law_ring_read_in_order()
    ensures
        forall|ring: &mut MailBoxBuffer, b: &mut [u8], r: isize|
            #[trigger] call_ensures(MailBoxBuffer::read, (ring, b), r) ==> {
                &&& r == -1 <==> (*ring).mails().len() == 0
                &&& r == -1 ==> final(ring).mails() == (*ring).mails() && final(b)@ == b@
                &&& r != -1 ==> {
                    let mail = (*ring).mails()[0];
                    &&& r as int == (if mail.len() < b@.len() { mail.len() as int } else { b@.len() as int })
                    &&& final(b)@.take(r as int) == mail.take(r as int)
                    &&& final(b)@.skip(r as int) == b@.skip(r as int)
                    &&& final(ring).mails() == (*ring).mails().drop_first()
                }
            },
{
    assert forall|ring: &mut MailBoxBuffer, b: &mut [u8], r: isize|
        #[trigger] call_ensures(MailBoxBuffer::read, (ring, b), r) implies {
            &&& r == -1 <==> (*ring).mails().len() == 0
            &&& r == -1 ==> final(ring).mails() == (*ring).mails() && final(b)@ == b@
            &&& r != -1 ==> {
                let mail = (*ring).mails()[0];
                &&& r as int == (if mail.len() < b@.len() { mail.len() as int } else { b@.len() as int })
                &&& final(b)@.take(r as int) == mail.take(r as int)
                &&& final(b)@.skip(r as int) == b@.skip(r as int)
                &&& final(ring).mails() == (*ring).mails().drop_first()
            }
        } by {
        let q = (*ring).mails();
        if q.len() > 0 {
            let mail = q[0];
            let n = if mail.len() < b@.len() { mail.len() as int } else { b@.len() as int };
            assert(final(b)@ == mail.take(n) + b@.skip(n));
            assert(final(b)@.take(n) =~= mail.take(n));
            assert(final(b)@.skip(n) =~= b@.skip(n));
        }
    }
}

impl Ring {
    spec fn consistent(self) -> bool {
        &&& self.head < MAIL_NUM
        &&& self.tail < MAIL_NUM
        &&& 0 <= self.cnt <= MAIL_NUM
        &&& self.tail as int == slot_after(self.head as int, self.cnt as int)
        &&& (self.status == MailBufferStatus::EMPTY <==> self.cnt == 0)
        &&& (self.status == MailBufferStatus::FULL <==> self.cnt == MAIL_NUM)
        &&& (self.readable <==> self.cnt > 0)
        &&& (self.writable <==> self.cnt < MAIL_NUM)
    }
}

impl MailBoxBuffer {
    #[verifier::type_invariant]
    spec fn inv(self) -> bool {
        &&& self.ring.consistent()
        &&& forall|i: int| 0 <= i < MAIL_NUM ==> #[trigger] self.len@[i] <= MAIL_RING_BUFFER_SIZE
    }

    /// The bytes of the mail stored in ring slot `slot`.
    spec fn slot_mail(self, slot: int) -> Seq<u8> {
        let start = slot * (MAIL_RING_BUFFER_SIZE as int);
        self.buffer@.subrange(start, start + self.len@[slot] as int)
    }

    /// Slot of the oldest mail.
    pub closed spec fn head(self) -> usize {
        self.ring.head
    }

    /// Slot the next mail goes to.
    pub closed spec fn tail(self) -> usize {
        self.ring.tail
    }

    /// Number of queued mails.
    pub closed spec fn count(self) -> isize {
        self.ring.cnt
    }

    /// The recorded fill state.
    pub closed spec fn status(self) -> MailBufferStatus {
        self.ring.status
    }

    /// The recorded readable flag.
    pub closed spec fn readable_flag(self) -> bool {
        self.ring.readable
    }

    /// The recorded writable flag.
    pub closed spec fn writable_flag(self) -> bool {
        self.ring.writable
    }

    /// Length of the mail in each slot.
    pub closed spec fn slot_lens(self) -> Seq<usize> {
        self.len@
    }

    /// The bytes of all slots.
    pub closed spec fn bytes(self) -> Seq<u8> {
        self.buffer@
    }

    /// The ring's bookkeeping is consistent: `head` and `tail` are slots,
    /// `tail` lies `count` slots after `head`, the status and flags follow
    /// from the count, and no slot holds more than one mail's bytes.
    pub open spec fn ring_invariant(self) -> bool {
        &&& self.head() < MAIL_NUM
        &&& self.tail() < MAIL_NUM
        &&& 0 <= self.count() <= MAIL_NUM
        &&& self.tail() as int == slot_after(self.head() as int, self.count() as int)
        &&& (self.status() == MailBufferStatus::EMPTY <==> self.count() == 0)
        &&& (self.status() == MailBufferStatus::FULL <==> self.count() == MAIL_NUM)
        &&& (self.readable_flag() <==> self.count() > 0)
        &&& (self.writable_flag() <==> self.count() < MAIL_NUM)
        &&& self.slot_lens().len() == MAIL_NUM
        &&& forall|i: int| 0 <= i < MAIL_NUM ==> #[trigger] self.slot_lens()[i] <= MAIL_RING_BUFFER_SIZE
    }

    /// The queued mails, oldest first.
    pub closed spec fn mails(self) -> Seq<Seq<u8>> {
        Seq::new(
            self.ring.cnt as nat,
            |k: int| self.slot_mail(slot_after(self.ring.head as int, k)),
        )
    }

    proof fn lemma_mails_bounded(self)
        requires
            self.inv(),
        ensures
            bounded(self.mails()),
    {
        assert forall|k: int| 0 <= k < self.mails().len() implies #[trigger] self.mails()[k].len() <= MAIL_RING_BUFFER_SIZE by {
            let s = slot_after(self.ring.head as int, k);
            assert(self.len@[s] <= MAIL_RING_BUFFER_SIZE);
        }
    }

    /// Whether at least one mail is queued.
    pub fn readable(&self) -> (r: bool)
        ensures
            r == (self.mails().len() > 0),
            bounded(self.mails()),
    {
        proof {
            use_type_invariant(self);
            self.lemma_mails_bounded();
        }
        self.ring.cnt > 0
    }

    /// Whether a further mail can be queued.
    pub fn writable(&self) -> (r: bool)
        ensures
            r == (self.mails().len() < MAIL_NUM),
            bounded(self.mails()),
    {
        proof {
            use_type_invariant(self);
            self.lemma_mails_bounded();
        }
        self.ring.cnt < 16
    }

    /// An empty mailbox: no mail queued, writable, not readable.
    pub fn new() -> (r: Self)
        ensures
            r.mails() == Seq::<Seq<u8>>::empty(),
            bounded(r.mails()),
            r.ring_invariant(),
            r.head() == 0 && r.tail() == 0 && r.count() == 0,
            r.status() == MailBufferStatus::EMPTY,
            !r.readable_flag() && r.writable_flag(),
            r.slot_lens() == Seq::new(MAIL_NUM as nat, |i: int| 0usize),
            r.bytes() == Seq::new(4096nat, |i: int| 0u8),
    {
        let r = MailBoxBuffer {
            buffer: [0u8; 4096],
            len: [0usize; 16],
            ring: Ring {
                head: 0,
                tail: 0,
                status: MailBufferStatus::EMPTY,
                writable: true,
                readable: false,
                cnt: 0,
            },
        };
        assert(r.mails() =~= Seq::<Seq<u8>>::empty());
        assert(r.slot_lens() =~= Seq::new(MAIL_NUM as nat, |i: int| 0usize));
        assert(r.bytes() =~= Seq::new(4096nat, |i: int| 0u8));
        r
    }

    /// Appends the first `min(data.len(), 256)` bytes of `data` as the newest
    /// mail and returns their count, or returns -1 when the ring is full.
    pub fn write(&mut self, data: &[u8]) -> (r: isize)
        ensures
            final(self).mails() == after_write(old(self).mails(), data@).0,
            r as int == after_write(old(self).mails(), data@).1,
            bounded(old(self).mails()),
            bounded(final(self).mails()),
            final(self).ring_invariant(),
    {
        proof {
            use_type_invariant(&*self);
            self.lemma_mails_bounded();
        }
        let ghost q0 = self.mails();
        let ghost old_buf = self.buffer@;
        let mut write_size: usize = 0;
        let now = self.ring.tail * MAIL_RING_BUFFER_SIZE;
        if self.ring.cnt == 16 {
            return -1;
        }
        while write_size < MAIL_RING_BUFFER_SIZE && write_size < data.len()
            invariant
                self.inv(),
                self.ring == old(self).ring,
                self.len == old(self).len,
                now == self.ring.tail * MAIL_RING_BUFFER_SIZE,
                self.ring.tail < MAIL_NUM,
                write_size <= MAIL_RING_BUFFER_SIZE,
                write_size <= data@.len(),
                self.buffer@.len() == 4096,
                forall|j: int|
                    0 <= j < 4096 && !(now <= j < now + write_size) ==> self.buffer@[j] == old_buf[j],
                forall|j: int| 0 <= j < write_size ==> self.buffer@[now + j] == data@[j],
            decreases MAIL_RING_BUFFER_SIZE - write_size,
        {
            self.buffer[now + write_size] = data[write_size];
            write_size += 1;
        }
        self.len[now / MAIL_RING_BUFFER_SIZE] = write_size;
        let head = self.ring.head;
        let tail = (self.ring.tail + 1) % MAIL_NUM;
        let cnt = self.ring.cnt + 1;
        if tail == head {
            self.ring = Ring { head, tail, status: MailBufferStatus::FULL, readable: true, writable: false, cnt };
        } else {
            self.ring = Ring { head, tail, status: MailBufferStatus::NORMAL, readable: true, writable: true, cnt };
        }
        proof {
            let n = clipped(data@.len() as int);
            assert(write_size == n);
            let q1 = q0.push(data@.take(n));
            assert forall|k: int| 0 <= k < q1.len() implies #[trigger] self.mails()[k] == q1[k] by {
                let s = slot_after(self.ring.head as int, k);
                let t = old(self).ring.tail as int;
                if k < q0.len() {
                    assert(s != t);
                    assert(self.len@[s] == old(self).len@[s]);
                    assert(self.slot_mail(s) =~= old(self).slot_mail(s));
                } else {
                    assert(s == t);
                    assert(self.slot_mail(s) =~= data@.take(n));
                }
            }
            assert(self.mails() =~= q1);
            self.lemma_mails_bounded();
        }
        write_size as isize
    }

    /// Removes the oldest mail, copies as many of its bytes as fit to the
    /// front of `buf` and returns their count, or returns -1 when no mail is
    /// queued.
    pub fn read(&mut self, buf: &mut [u8]) -> (r: isize)
        ensures
            final(self).mails() == after_read(old(self).mails(), old(buf)@).0,
            final(buf)@ == after_read(old(self).mails(), old(buf)@).1,
            r as int == after_read(old(self).mails(), old(buf)@).2,
            bounded(old(self).mails()),
            bounded(final(self).mails()),
            final(self).ring_invariant(),
    {
        proof { use_type_invariant(&*self); }
        let ghost q0 = self.mails();
        let ghost b0 = buf@;
        proof { self.lemma_mails_bounded(); }
        let mut read_size: usize = 0;
        let now = self.ring.head * MAIL_RING_BUFFER_SIZE;
        if self.ring.cnt == 0 {
            return -1;
        }
        let mail_len = self.len[now / MAIL_RING_BUFFER_SIZE];
        proof {
            assert(self.slot_mail(self.ring.head as int) == q0[0]);
        }
        while read_size < mail_len && read_size < buf.len()
            invariant
                self.inv(),
                *self == *old(self),
                now == self.ring.head * MAIL_RING_BUFFER_SIZE,
                self.ring.head < MAIL_NUM,
                mail_len == self.len@[self.ring.head as int],
                mail_len <= MAIL_RING_BUFFER_SIZE,
                read_size <= mail_len,
                read_size <= buf@.len(),
                buf@.len() == b0.len(),
                self.buffer@.len() == 4096,
                forall|j: int| read_size <= j < b0.len() ==> buf@[j] == b0[j],
                forall|j: int| 0 <= j < read_size ==> buf@[j] == self.buffer@[now + j],
            decreases mail_len - read_size,
        {
            buf[read_size] = self.buffer[now + read_size];
            read_size += 1;
        }
        let head = (self.ring.head + 1) % MAIL_NUM;
        let tail = self.ring.tail;
        let cnt = self.ring.cnt - 1;
        if tail == head {
            self.ring = Ring { head, tail, status: MailBufferStatus::EMPTY, readable: false, writable: true, cnt };
        } else {
            self.ring = Ring { head, tail, status: MailBufferStatus::NORMAL, readable: true, writable: true, cnt };
        }
        proof {
            let m = q0[0];
            assert(buf@ =~= m.take(read_size as int) + b0.skip(read_size as int));
            let q1 = q0.drop_first();
            assert forall|k: int| 0 <= k < q1.len() implies #[trigger] self.mails()[k] == q1[k] by {
                assert(slot_after(self.ring.head as int, k) == slot_after(old(self).ring.head as int, k + 1));
            }
            assert(self.mails() =~= q1);
            self.lemma_mails_bounded();
        }
        read_size as isize
    }
}

#[verifier::external_type_specification]
#[verifier::external_body]
#[verifier::reject_recursive_types(T)]
pub struct ExMutex<T: ?Sized>(spin::Mutex<T>);

#[verifier::external_type_specification]
#[verifier::external_body]
#[verifier::reject_recursive_types(T)]
pub struct ExMutexGuard<'a, T: 'a + ?Sized>(spin::MutexGuard<'a, T>);

/// The mails a lock held when it was made. Later holders may change what it
/// holds; this names only its first contents, which never change.
pub uninterp spec fn lock_made_with(m: spin::Mutex<MailBoxBuffer>) -> Seq<Seq<u8>>;

/// `spin::Mutex::new`: wraps `b` in a new, unlocked lock, which therefore
/// was made holding the mails of `b`. Nothing is stated of what it holds
/// later: Verus does not see through the lock.
#[verifier::external_body]
fn new_lock(b: MailBoxBuffer) -> (m: spin::Mutex<MailBoxBuffer>)
    ensures
        lock_made_with(m) == b.mails(),
{
    spin::Mutex::new(b)
}

/// `spin::Mutex::lock` on a mailbox's lock: spins until the lock is free
/// and hands out a guard to the buffer, which other holders may have changed
/// in the meantime; nothing is stated of it. The call does not return while
/// the lock is held, so it is made only from `MailBox`'s methods, on the
/// box's private lock, which hold no guard when they call it and drop theirs
/// before they return.
#[verifier::external_body]
fn lock_buffer<'a>(m: &'a spin::Mutex<MailBoxBuffer>) -> spin::MutexGuard<'a, MailBoxBuffer> {
    m.lock()
}

/// `DerefMut::deref_mut` of `spin::MutexGuard`: the buffer behind a held
/// guard. Nothing is stated of its contents; the buffer's own type
/// invariant is all that is known of them.
#[verifier::external_body]
fn guarded<'a, 'b>(g: &'a mut spin::MutexGuard<'b, MailBoxBuffer>) -> &'a mut MailBoxBuffer {
    &mut **g
}

/// A mailbox shared between the tasks that send to one process: its ring of
/// mails behind a spin lock.
pub struct MailBox {
    buffer: Arc<spin::Mutex<MailBoxBuffer>>,
}

impl MailBox {
    /// The mails this box's lock was made holding.
    pub closed spec fn made_with(self) -> Seq<Seq<u8>> {
        lock_made_with(*self.buffer)
    }

    /// A new mailbox of its own, made holding no mail.
    pub fn new() -> (r: Self)
        ensures
            r.made_with() == Seq::<Seq<u8>>::empty(),
    {
        MailBox { buffer: Arc::new(new_lock(MailBoxBuffer::new())) }
    }

    /// Whether a mail was queued when the lock was held.
    pub fn readable(&self) -> bool {
        let mut ring_buffer = lock_buffer(&self.buffer);
        let flag = guarded(&mut ring_buffer).readable();
        flag
    }

    /// Whether a further mail could be queued when the lock was held.
    pub fn writable(&self) -> bool {
        let mut ring_buffer = lock_buffer(&self.buffer);
        let flag = guarded(&mut ring_buffer).writable();
        flag
    }

    /// Takes the oldest mail into the front of `buf` under the lock: -1 with
    /// `buf` untouched when none was queued, else the count of bytes copied,
    /// which fits both `buf` and one mail slot; the rest of `buf` is kept.
    /// What lands in `buf` is what one read of the ring behind the lock, on
    /// `buf` itself, gives.
    pub fn read(&self, buf: &mut [u8]) -> (r: isize)
        ensures
            final(buf)@.len() == old(buf)@.len(),
            r == -1 ==> final(buf)@ == old(buf)@,
            r != -1 ==> {
                &&& 0 <= r <= old(buf)@.len()
                &&& r <= MAIL_RING_BUFFER_SIZE
                &&& final(buf)@.skip(r as int) == old(buf)@.skip(r as int)
            },
            exists|ring: &mut MailBoxBuffer, b: &mut [u8]|
                #[trigger] call_ensures(MailBoxBuffer::read, (ring, b), r) && b@ == old(buf)@ && final(b)@
                    == final(buf)@,
    {
        let mut ring_buffer = lock_buffer(&self.buffer);
        let b = guarded(&mut ring_buffer);
        let ghost q = b.mails();
        let r = b.read(buf);
        proof {
            if r != -1 {
                assert(q[0].len() <= MAIL_RING_BUFFER_SIZE);
                assert(final(buf)@.skip(r as int) =~= old(buf)@.skip(r as int));
            }
        }
        r
    }

    /// Queues the first `min(data.len(), 256)` bytes of `data` as a new mail
    /// under the lock and returns their count, or -1 when the box was full:
    /// the result is that of one write of `data` itself to the ring behind
    /// the lock.
    pub fn write(&self, data: &[u8]) -> (r: isize)
        ensures
            r == -1 || r as int == clipped(data@.len() as int),
            exists|ring: &mut MailBoxBuffer| #[trigger] call_ensures(MailBoxBuffer::write, (ring, data), r),
    {
        let mut ring_buffer = lock_buffer(&self.buffer);
        let r = guarded(&mut ring_buffer).write(data);
        r
    }
}

} // verus!
