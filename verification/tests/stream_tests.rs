use rustos::kernel::CritSect;
use rustos::kernel::Kernel;
use rustos::kernel::Semaphore;
use rustos::stream::Queue;
use rustos::stream::StreamBuffer;
use rustos::task::IDLE_PRIO;
use rustos::task::Stack;
use rustos::task::Task;
use rustos::time::ms;

fn cs() -> CritSect {
    CritSect::activate()
}

fn boot(prios: &[usize]) -> Kernel {
    let mut k = Kernel::new();
    for &p in prios {
        let t = Task::new(p, p, Stack::new(32));
        assert!(k.add_task(t).is_ok());
    }
    k.init(cs());
    k.schedule_next(cs());
    if k.switch_pending() {
        k.switch_to_next(100);
    }
    k
}

#[test]
fn queue_is_first_in_first_out() {
    let mut k = boot(&[5]);
    let mut q: Queue<u64, 4> = Queue::new(&mut k).unwrap();
    assert!(q.push(&mut k, 5, 10, cs()));
    assert!(q.push(&mut k, 5, 20, cs()));
    assert!(q.push(&mut k, 5, 30, cs()));
    assert_eq!(q.count(), 3);
    assert_eq!(q.pop(&mut k, 5, cs()), Some(10));
    assert_eq!(q.pop(&mut k, 5, cs()), Some(20));
    assert_eq!(q.pop(&mut k, 5, cs()), Some(30));
    assert_eq!(q.count(), 0);
}

#[test]
fn queue_push_then_immediate_pop_returns_same_value() {
    let mut k = boot(&[5]);
    let mut q: Queue<u64, 4> = Queue::new(&mut k).unwrap();
    assert!(q.push(&mut k, 5, 77, cs()));
    assert_eq!(q.pop(&mut k, 5, cs()), Some(77));
}

#[test]
fn queue_wraps_around() {
    let mut k = boot(&[5]);
    let mut q: Queue<u64, 3> = Queue::new(&mut k).unwrap();
    for round in 0..5u64 {
        assert!(q.push(&mut k, 5, round * 2, cs()));
        assert!(q.push(&mut k, 5, round * 2 + 1, cs()));
        assert_eq!(q.pop(&mut k, 5, cs()), Some(round * 2));
        assert_eq!(q.pop(&mut k, 5, cs()), Some(round * 2 + 1));
    }
}

#[test]
fn queue_push_dropping_fails_when_full() {
    let mut k = boot(&[5]);
    let mut q: Queue<u64, 2> = Queue::new(&mut k).unwrap();
    assert!(q.push_dropping(&mut k, 1, cs()).is_ok());
    assert!(q.push_dropping(&mut k, 2, cs()).is_ok());
    assert!(q.push_dropping(&mut k, 3, cs()).is_err());
    assert_eq!(q.count(), 2);
    assert_eq!(q.pop_available(&mut k, cs()), Some(1));
}

#[test]
fn queue_pop_available_on_empty_is_none() {
    let mut k = boot(&[5]);
    let mut q: Queue<u64, 2> = Queue::new(&mut k).unwrap();
    assert_eq!(q.pop_available(&mut k, cs()), None);
}

#[test]
fn queue_blocking_push_suspends_when_full() {
    let mut k = boot(&[5]);
    let mut q: Queue<u64, 2> = Queue::new(&mut k).unwrap();
    assert!(q.push(&mut k, 5, 1, cs()));
    assert!(q.push(&mut k, 5, 2, cs()));
    // Full: the pusher suspends instead.
    assert!(!q.push(&mut k, 5, 3, cs()));
    assert!(!k.task_ready(5));
    assert_eq!(q.count(), 2);
    k.switch_to_next(100);
    assert_eq!(k.running(), IDLE_PRIO);
    // A pop signals the blocked pusher.
    assert_eq!(q.pop_available(&mut k, cs()), Some(1));
    assert!(k.task_ready(5));
    k.switch_to_next(100);
    assert_eq!(k.running(), 5);
    // The retry now succeeds.
    assert!(q.push(&mut k, 5, 3, cs()));
}

#[test]
fn queue_pop_timeout_expires() {
    let mut k = boot(&[5]);
    let mut q: Queue<u64, 2> = Queue::new(&mut k).unwrap();
    assert_eq!(q.pop_timeout(&mut k, 5, ms::new(10), cs()), None);
    k.switch_to_next(100);
    for _ in 0..10 {
        k.on_tick(cs());
    }
    assert!(k.task_ready(5));
    assert!(k.sem_wait_outcome(5).is_err());
}

#[test]
fn queue_watermark_is_monotone() {
    let mut k = boot(&[5]);
    let mut q: Queue<u64, 4> = Queue::new(&mut k).unwrap();
    assert_eq!(q.watermark(), 0);
    assert!(q.push(&mut k, 5, 1, cs()));
    assert!(q.push(&mut k, 5, 2, cs()));
    assert!(q.push(&mut k, 5, 3, cs()));
    assert_eq!(q.watermark(), 3);
    assert_eq!(q.pop(&mut k, 5, cs()), Some(1));
    assert_eq!(q.pop(&mut k, 5, cs()), Some(2));
    assert_eq!(q.watermark(), 3);
    assert!(q.push(&mut k, 5, 4, cs()));
    assert_eq!(q.watermark(), 3);
    q.clear(cs());
    assert_eq!(q.count(), 0);
    assert_eq!(q.watermark(), 3);
}

#[test]
fn stream_buffer_reader_waits_for_trigger() {
    // A reader asking for ten bytes blocks; one byte leaves it blocked
    // because the trigger is two; the second byte wakes it; it then drains
    // what is there and blocks again until eight more bytes arrive.
    let mut k = boot(&[5]);
    let mut sb: StreamBuffer<u8, 8, 2> = StreamBuffer::new(&mut k).unwrap();
    let mut out: Vec<u8> = vec![0; 10];
    let progress = sb.read(&mut k, 5, &mut out, 0, cs());
    assert_eq!(progress, 0);
    assert!(!k.task_ready(5));
    k.switch_to_next(100);
    assert_eq!(k.running(), IDLE_PRIO);
    // One byte: below the trigger, the reader stays blocked.
    assert_eq!(sb.write_dropping(&mut k, &vec![0xAA], cs()), Ok(1));
    assert!(!k.task_ready(5));
    // The second byte reaches the trigger and wakes the reader.
    assert_eq!(sb.write_dropping(&mut k, &vec![0xBB], cs()), Ok(1));
    assert!(k.task_ready(5));
    k.switch_to_next(100);
    assert_eq!(k.running(), 5);
    let progress = sb.read(&mut k, 5, &mut out, 0, cs());
    assert_eq!(progress, 2);
    assert_eq!(out[0], 0xAA);
    assert_eq!(out[1], 0xBB);
    // Empty again: the reader blocks until eight more bytes arrive.
    let progress = sb.read(&mut k, 5, &mut out, progress, cs());
    assert_eq!(progress, 2);
    assert!(!k.task_ready(5));
    k.switch_to_next(100);
    let eight: Vec<u8> = vec![1, 2, 3, 4, 5, 6, 7, 8];
    assert_eq!(sb.write_dropping(&mut k, &eight, cs()), Ok(8));
    assert!(k.task_ready(5));
    k.switch_to_next(100);
    let progress = sb.read(&mut k, 5, &mut out, 2, cs());
    assert_eq!(progress, 10);
    assert_eq!(out, vec![0xAA, 0xBB, 1, 2, 3, 4, 5, 6, 7, 8]);
}

#[test]
fn stream_buffer_write_dropping_reports_partial() {
    let mut k = boot(&[5]);
    let mut sb: StreamBuffer<u8, 4, 1> = StreamBuffer::new(&mut k).unwrap();
    let six: Vec<u8> = vec![1, 2, 3, 4, 5, 6];
    assert_eq!(sb.write_dropping(&mut k, &six, cs()), Err(4));
    assert_eq!(sb.count(), 4);
    assert_eq!(sb.write_dropping(&mut k, &six, cs()), Err(0));
    let mut out: Vec<u8> = vec![0; 4];
    assert_eq!(sb.read_available(&mut k, &mut out, cs()), 4);
    assert_eq!(out, vec![1, 2, 3, 4]);
}

#[test]
fn stream_buffer_write_blocks_when_full() {
    let mut k = boot(&[5]);
    let mut sb: StreamBuffer<u8, 2, 1> = StreamBuffer::new(&mut k).unwrap();
    let data: Vec<u8> = vec![9, 8, 7];
    let progress = sb.write(&mut k, 5, &data, 0, cs());
    assert_eq!(progress, 2);
    // Full: the writer suspends on the next step.
    let progress = sb.write(&mut k, 5, &data, progress, cs());
    assert_eq!(progress, 2);
    assert!(!k.task_ready(5));
    k.switch_to_next(100);
    // Draining signals the writer.
    let mut out: Vec<u8> = vec![0; 2];
    assert_eq!(sb.read_available(&mut k, &mut out, cs()), 2);
    assert_eq!(out, vec![9, 8]);
    assert!(k.task_ready(5));
    k.switch_to_next(100);
    let progress = sb.write(&mut k, 5, &data, progress, cs());
    assert_eq!(progress, 3);
    let mut out2: Vec<u8> = vec![0; 1];
    assert_eq!(sb.read_available(&mut k, &mut out2, cs()), 1);
    assert_eq!(out2, vec![7]);
}

#[test]
fn stream_buffer_read_timeout_expires() {
    let mut k = boot(&[5]);
    let mut sb: StreamBuffer<u8, 4, 2> = StreamBuffer::new(&mut k).unwrap();
    let mut out: Vec<u8> = vec![0; 4];
    let progress = sb.read_timeout(&mut k, 5, &mut out, 0, ms::new(20), cs());
    assert_eq!(progress, 0);
    k.switch_to_next(100);
    for _ in 0..20 {
        k.on_tick(cs());
    }
    assert!(k.task_ready(5));
    assert!(k.sem_wait_outcome(5).is_err());
}

#[test]
fn stream_buffer_counts_and_clear() {
    let mut k = boot(&[5]);
    let mut sb: StreamBuffer<u8, 4, 1> = StreamBuffer::new(&mut k).unwrap();
    let data: Vec<u8> = vec![1, 2, 3];
    assert_eq!(sb.write_dropping(&mut k, &data, cs()), Ok(3));
    assert_eq!(sb.count(), 3);
    assert_eq!(sb.watermark(), 3);
    sb.clear(cs());
    assert_eq!(sb.count(), 0);
    assert_eq!(sb.watermark(), 3);
}

#[test]
fn queue_new_refuses_when_fewer_than_two_semaphore_slots_remain() {
    let mut k = boot(&[5]);
    // Fill the registry up to a single free slot.
    for _ in 0..31 {
        assert!(k.add_semaphore(Semaphore::new()).is_ok());
    }
    let q: Result<Queue<u64, 2>, ()> = Queue::new(&mut k);
    assert!(q.is_err());
}

#[test]
fn queue_new_succeeds_with_two_free_semaphore_slots() {
    let mut k = boot(&[5]);
    for _ in 0..30 {
        assert!(k.add_semaphore(Semaphore::new()).is_ok());
    }
    let q: Result<Queue<u64, 2>, ()> = Queue::new(&mut k);
    assert!(q.is_ok());
}

#[test]
fn queue_new_failure_leaks_no_registration() {
    let mut k = boot(&[5]);
    for _ in 0..31 {
        assert!(k.add_semaphore(Semaphore::new()).is_ok());
    }
    // One slot is free: the constructor registers it, cannot get a second,
    // and hands the first back.
    let q: Result<Queue<u64, 2>, ()> = Queue::new(&mut k);
    assert!(q.is_err());
    assert!(k.add_semaphore(Semaphore::new()).is_ok());
}
