use std::sync::Arc;
use rcore_os::task::manager::TaskManager;
use rcore_os::syscall::process::ChildTask;
use rcore_os::task::manager::exit_current;

#[test]
fn ready_queue_is_first_in_first_out() {
    let mut m: TaskManager<&str> = TaskManager::new();
    assert_eq!(m.fetch(), None);
    m.add("a");
    m.add("b");
    m.add("c");
    assert_eq!(m.fetch(), Some("a"));
    m.add("d");
    assert_eq!(m.fetch(), Some("b"));
    assert_eq!(m.fetch(), Some("c"));
    assert_eq!(m.fetch(), Some("d"));
    assert_eq!(m.fetch(), None);
}

#[test]
fn find_mailbox_hands_out_the_same_box() {
    let mut m: TaskManager<u8> = TaskManager::new();
    let a = m.find_mailbox(5);
    let b = m.find_mailbox(5);
    assert!(Arc::ptr_eq(&a, &b));
    let c = m.find_mailbox(6);
    assert!(!Arc::ptr_eq(&a, &c));
    assert_eq!(a.write(&[1, 2, 3]), 3);
    let mut buf = [0u8; 3];
    assert_eq!(b.read(&mut buf), 3);
    assert_eq!(buf, [1, 2, 3]);
}

#[test]
fn clear_mailbox_reports_and_forgets() {
    let mut m: TaskManager<u8> = TaskManager::new();
    assert!(!m.clear_mailbox(9));
    let a = m.find_mailbox(9);
    assert_eq!(a.write(&[4]), 1);
    assert!(m.clear_mailbox(9));
    assert!(!m.clear_mailbox(9));
    let b = m.find_mailbox(9);
    assert!(!Arc::ptr_eq(&a, &b));
    assert!(!b.readable());
}

#[test]
fn exit_drops_mailbox_and_hands_children_to_initproc() {
    let mut m: TaskManager<u8> = TaskManager::new();
    let mb = m.find_mailbox(4);
    assert_eq!(mb.write(&[1]), 1);
    let _other = m.find_mailbox(5);
    let mut me = ChildTask { pid: 4, zombie: false, exit_code: 0 };
    let mut children = vec!["c1", "c2"];
    let mut init_children = vec!["i1"];
    exit_current(&mut m, &mut me, -9, &mut children, &mut init_children);
    assert_eq!(me, ChildTask { pid: 4, zombie: true, exit_code: -9 });
    assert!(children.is_empty());
    assert_eq!(init_children, vec!["i1", "c1", "c2"]);
    assert!(!m.clear_mailbox(4));
    assert!(m.clear_mailbox(5));
}
