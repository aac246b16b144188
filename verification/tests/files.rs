use std::sync::Arc;
use std::sync::atomic::{AtomicUsize, Ordering};
use rcore_os::fs::File;
use rcore_os::syscall::fs::{sys_close, sys_read, sys_write};

struct Counter {
    written: AtomicUsize,
}

impl File for Counter {
    fn read(&self, buf: &mut [u8]) -> usize {
        for b in buf.iter_mut() {
            *b = 1;
        }
        buf.len()
    }

    fn write(&self, buf: &[u8]) -> usize {
        self.written.fetch_add(buf.len(), Ordering::SeqCst);
        buf.len()
    }
}

#[test]
fn read_write_through_descriptors() {
    let f = Arc::new(Counter { written: AtomicUsize::new(0) });
    let table = vec![None, Some(f.clone())];
    assert_eq!(sys_write(&table, 1, &[1, 2, 3]), 3);
    assert_eq!(f.written.load(Ordering::SeqCst), 3);
    assert_eq!(sys_write(&table, 0, &[1]), -1);
    assert_eq!(sys_write(&table, 2, &[1]), -1);
    let mut buf = [0u8; 4];
    assert_eq!(sys_read(&table, 1, &mut buf), 4);
    assert_eq!(buf, [1; 4]);
    let mut buf = [0u8; 4];
    assert_eq!(sys_read(&table, 0, &mut buf), -1);
    assert_eq!(sys_read(&table, 5, &mut buf), -1);
    assert_eq!(buf, [0; 4]);
}

#[test]
fn close_empties_the_slot_once() {
    let mut table = vec![Some(1u8), None, Some(3u8)];
    assert_eq!(sys_close(&mut table, 3), -1);
    assert_eq!(sys_close(&mut table, 1), -1);
    assert_eq!(sys_close(&mut table, 2), 0);
    assert_eq!(table, vec![Some(1), None, None]);
    assert_eq!(sys_close(&mut table, 2), -1);
}
