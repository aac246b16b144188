use std::collections::VecDeque;
use rcore_os::fs::mail::{MailBox, MailBoxBuffer};
use rcore_os::syscall::fs::{mail_call_len, sys_mail_read, sys_mail_write};
use rcore_os::task::manager::TaskManager;

const BUF_LEN: usize = 256;

#[test]
fn mail0_sequence_on_buffer() {
    let mut mb = MailBoxBuffer::new();
    let buffer0 = [b'a'; 27];
    assert_eq!(mb.write(&buffer0), 27);
    let buffer1 = [b'b'; BUF_LEN + 1];
    assert_eq!(mb.write(&buffer1), BUF_LEN as isize);
    let mut buf = [0u8; BUF_LEN];
    assert_eq!(mb.read(&mut buf), 27);
    assert_eq!(buf[..27], buffer0);
    assert_eq!(mb.read(&mut buf[..27]), 27);
    assert_eq!(buf[..27], buffer1[..27]);
    // the rest of the buffer is untouched by the short reads
    assert!(buf[27..].iter().all(|&b| b == 0));
}

#[test]
fn mail0_sequence_on_shared_mailbox() {
    let mb = MailBox::new();
    let buffer0 = [b'a'; 27];
    assert_eq!(mb.write(&buffer0), 27);
    let buffer1 = [b'b'; BUF_LEN + 1];
    assert_eq!(mb.write(&buffer1), BUF_LEN as isize);
    let mut buf = [0u8; BUF_LEN];
    assert_eq!(mb.read(&mut buf), 27);
    assert_eq!(buf[..27], buffer0);
    assert_eq!(mb.read(&mut buf[..27]), 27);
    assert_eq!(buf[..27], buffer1[..27]);
}

#[test]
fn empty_box_refuses_read_and_leaves_buffer() {
    let mut mb = MailBoxBuffer::new();
    assert!(!mb.readable());
    assert!(mb.writable());
    let mut buf = [7u8; 4];
    assert_eq!(mb.read(&mut buf), -1);
    assert_eq!(buf, [7u8; 4]);
}

#[test]
fn full_box_refuses_the_seventeenth_mail() {
    let mut mb = MailBoxBuffer::new();
    for i in 0..16u8 {
        assert!(mb.writable());
        assert_eq!(mb.write(&[i; 3]), 3);
        assert!(mb.readable());
    }
    assert!(!mb.writable());
    assert_eq!(mb.write(&[99u8; 3]), -1);
    let mut buf = [0u8; 8];
    for i in 0..16u8 {
        assert_eq!(mb.read(&mut buf), 3);
        assert_eq!(buf[..3], [i; 3]);
    }
    assert!(!mb.readable());
    assert_eq!(mb.read(&mut buf), -1);
}

#[test]
fn mails_come_out_in_order_across_wraparound() {
    let mut mb = MailBoxBuffer::new();
    let mut expected: VecDeque<Vec<u8>> = VecDeque::new();
    let mut buf = [0u8; 300];
    for round in 0..200u32 {
        let len = (round as usize * 37) % 300;
        let data: Vec<u8> = (0..len).map(|k| (k as u32 + round) as u8).collect();
        let w = mb.write(&data);
        if expected.len() == 16 {
            assert_eq!(w, -1);
        } else {
            assert_eq!(w, len.min(256) as isize);
            expected.push_back(data[..len.min(256)].to_vec());
        }
        if round % 3 != 0 || round > 150 {
            let r = mb.read(&mut buf);
            match expected.pop_front() {
                Some(m) => {
                    assert_eq!(r, m.len() as isize);
                    assert_eq!(buf[..m.len()], m[..]);
                }
                None => assert_eq!(r, -1),
            }
        }
        assert_eq!(mb.readable(), !expected.is_empty());
        assert_eq!(mb.writable(), expected.len() < 16);
    }
}

#[test]
fn empty_mail_is_a_mail() {
    let mut mb = MailBoxBuffer::new();
    assert_eq!(mb.write(&[]), 0);
    assert!(mb.readable());
    let mut buf = [5u8; 2];
    assert_eq!(mb.read(&mut buf), 0);
    assert_eq!(buf, [5u8; 2]);
    assert!(!mb.readable());
}

#[test]
fn short_reader_buffer_takes_a_prefix_and_drops_the_rest_of_the_mail() {
    let mut mb = MailBoxBuffer::new();
    assert_eq!(mb.write(&[1, 2, 3, 4, 5]), 5);
    assert_eq!(mb.write(&[9]), 1);
    let mut buf = [0u8; 2];
    assert_eq!(mb.read(&mut buf), 2);
    assert_eq!(buf, [1, 2]);
    assert_eq!(mb.read(&mut buf), 1);
    assert_eq!(buf, [9, 2]);
}

#[test]
fn mail_call_length_is_clipped_to_one_slot() {
    assert_eq!(mail_call_len(0), 0);
    assert_eq!(mail_call_len(255), 255);
    assert_eq!(mail_call_len(256), 256);
    assert_eq!(mail_call_len(100_000), 256);
}

#[test]
fn syscall_mail_round_trip_between_processes() {
    let mut manager: TaskManager<u32> = TaskManager::new();
    let data = [b'x'; 300];
    let n = mail_call_len(300);
    assert_eq!(sys_mail_write(&mut manager, 7, 300, true, &data[..n]), 256);
    let mut buf = [0u8; 256];
    assert_eq!(sys_mail_read(&mut manager, 7, 256, true, &mut buf), 256);
    assert!(buf.iter().all(|&b| b == b'x'));
    // nothing left for process 7, and nothing ever sent to process 8
    assert_eq!(sys_mail_read(&mut manager, 7, 256, true, &mut buf), -1);
    assert_eq!(sys_mail_read(&mut manager, 8, 256, true, &mut buf), -1);
}

#[test]
fn syscall_mail_unmapped_buffer_is_refused() {
    let mut manager: TaskManager<u32> = TaskManager::new();
    assert_eq!(sys_mail_write(&mut manager, 1, 10, false, &[]), -1);
    let mut empty: [u8; 0] = [];
    assert_eq!(sys_mail_read(&mut manager, 1, 10, false, &mut empty), -1);
    // the mailbox is created on first use even though the call failed
    let mut buf = [0u8; 4];
    assert_eq!(sys_mail_read(&mut manager, 1, 4, true, &mut buf), -1);
}

#[test]
fn syscall_mail_zero_length_probes() {
    let mut manager: TaskManager<u32> = TaskManager::new();
    let mut empty: [u8; 0] = [];
    assert_eq!(sys_mail_read(&mut manager, 3, 0, true, &mut empty), -1);
    assert_eq!(sys_mail_write(&mut manager, 3, 0, true, &[]), 0);
    for _ in 0..16 {
        assert_eq!(sys_mail_write(&mut manager, 3, 1, true, &[1]), 1);
    }
    assert_eq!(sys_mail_write(&mut manager, 3, 0, true, &[]), -1);
    assert_eq!(sys_mail_write(&mut manager, 3, 1, true, &[1]), -1);
    assert_eq!(sys_mail_read(&mut manager, 3, 0, true, &mut empty), 0);
}

#[test]
fn new_shared_mailbox_starts_empty() {
    let mb = MailBox::new();
    assert!(!mb.readable());
    assert!(mb.writable());
    let mut buf = [3u8; 4];
    assert_eq!(mb.read(&mut buf), -1);
    assert_eq!(buf, [3u8; 4]);
}
