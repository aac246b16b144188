use vstd::prelude::*;
use std::collections::{BTreeMap, VecDeque};
use std::sync::Arc;
use crate::fs::mail::MailBox;
use crate::syscall::process::ChildTask;

verus! {

broadcast use vstd::std_specs::btree::group_btree_axioms;

/// Whether `find_mailbox(pid)` on a registry `before` may leave it as `after`
/// and return `mb`: an existing mailbox is handed out and nothing changes,
/// otherwise `mb` is registered for `pid` and handed out.
pub open spec fn finds_mailbox(
    before: Map<usize, Arc<MailBox>>,
    pid: usize,
    after: Map<usize, Arc<MailBox>>,
    mb: Arc<MailBox>,
) -> bool {
    if before.contains_key(pid) {
        after == before && mb == before[pid]
    } else {
        after == before.insert(pid, mb)
    }
}

/// The scheduler's ready queue (first in, first out) and the mailbox of each
/// process that has one, keyed by pid.
pub struct TaskManager<T> {
    ready_queue: VecDeque<T>,
    map: BTreeMap<usize, Arc<MailBox>>,
}

impl<T> TaskManager<T> {
    /// The tasks waiting to run, in the order they will be fetched.
    pub closed spec fn ready(&self) -> Seq<T> {
        self.ready_queue@
    }

    /// The registered mailboxes, by pid.
    pub closed spec fn mailboxes(&self) -> Map<usize, Arc<MailBox>> {
        self.map@
    }

    pub fn new() -> (r: Self)
        ensures
            r.ready() == Seq::<T>::empty(),
            r.mailboxes() == Map::<usize, Arc<MailBox>>::empty(),
    {
        TaskManager { ready_queue: VecDeque::new(), map: BTreeMap::new() }
    }

    /// Puts `task` at the back of the ready queue.
    pub fn add(&mut self, task: T)
        ensures
            final(self).ready() == old(self).ready().push(task),
            final(self).mailboxes() == old(self).mailboxes(),
    {
        self.ready_queue.push_back(task);
    }

    /// Takes the task at the front of the ready queue, if any.
    pub fn fetch(&mut self) -> (r: Option<T>)
        ensures
            final(self).mailboxes() == old(self).mailboxes(),
            old(self).ready().len() == 0 ==> r is None && final(self).ready() == old(self).ready(),
            old(self).ready().len() > 0 ==> r == Some(old(self).ready()[0])
                && final(self).ready() == old(self).ready().drop_first(),
    {
        let r = self.ready_queue.pop_front();
        proof {
            if old(self).ready().len() > 0 {
                assert(self.ready() =~= old(self).ready().drop_first());
            }
        }
        r
    }

    /// The mailbox of process `pid`, registered as a new one, made empty,
    /// first when the process has none.
    pub fn find_mailbox(&mut self, pid: usize) -> (r: Arc<MailBox>)
        ensures
            finds_mailbox(old(self).mailboxes(), pid, final(self).mailboxes(), r),
            final(self).mailboxes().contains_key(pid),
            final(self).mailboxes()[pid] == r,
            !old(self).mailboxes().contains_key(pid) ==> (*r).made_with() == Seq::<Seq<u8>>::empty(),
            final(self).ready() == old(self).ready(),
    {
        if self.map.contains_key(&pid) {
            self.map.get(&pid).unwrap().clone()
        } else {
            self.map.insert(pid, Arc::new(MailBox::new()));
            self.map.get(&pid).unwrap().clone()
        }
    }

    /// Drops the mailbox of process `pid`; true when there was one.
    pub fn clear_mailbox(&mut self, pid: usize) -> (r: bool)
        ensures
            r == old(self).mailboxes().contains_key(pid),
            final(self).mailboxes() == old(self).mailboxes().remove(pid),
            final(self).ready() == old(self).ready(),
    {
        if self.map.contains_key(&pid) {
            self.map.remove(&pid);
            true
        } else {
            proof {
                assert(self.mailboxes() =~= old(self).mailboxes().remove(pid));
            }
            false
        }
    }
}

/// Asking twice for the mailbox of one process hands out the same mailbox
/// both times, and the second call changes nothing.
pub proof fn law_find_mailbox_stable(
    m0: Map<usize, Arc<MailBox>>,
    pid: usize,
    m1: Map<usize, Arc<MailBox>>,
    a: Arc<MailBox>,
    m2: Map<usize, Arc<MailBox>>,
    b: Arc<MailBox>,
)
    requires
        finds_mailbox(m0, pid, m1, a),
        finds_mailbox(m1, pid, m2, b),
    ensures
        b == a,
        m2 == m1,
        m1.contains_key(pid) && m1[pid] == a,
{
}

/// Tasks are fetched in the order they were added: adding `t` behind a
/// queue `q` and fetching `q.len()` tasks leaves `t` at the front.
pub proof fn law_ready_fifo<T>(q: Seq<T>, t: T)
    ensures
        q.push(t).skip(q.len() as int)[0] == t,
        q.push(t).take(q.len() as int) == q,
{
    assert(q.push(t).take(q.len() as int) =~= q);
}

/// What a task's exit changes in the kernel's books: its mailbox, with any
/// mail left in it, is dropped; the task becomes a zombie holding
/// `exit_code`; and its children move, in order, to the end of initproc's
/// children. The rest of exiting (freeing its memory and switching away) is
/// the scheduler's.
pub fn exit_current<T, C>(
    manager: &mut TaskManager<T>,
    current: &mut ChildTask,
    exit_code: i32,
    children: &mut Vec<C>,
    initproc_children: &mut Vec<C>,
)
    ensures
        final(manager).mailboxes() == old(manager).mailboxes().remove(old(current).pid),
        final(manager).ready() == old(manager).ready(),
        final(current).pid == old(current).pid,
        final(current).zombie,
        final(current).exit_code == exit_code,
        final(children)@ == Seq::<C>::empty(),
        final(initproc_children)@ == old(initproc_children)@ + old(children)@,
{
    manager.clear_mailbox(current.pid);
    current.zombie = true;
    current.exit_code = exit_code;
    initproc_children.append(children);
}

} // verus!
