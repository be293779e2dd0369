use kernel::io::Op;
use kernel::isr::Traps;
use kernel::mem::{self, Region, PAGE_SIZE};
use kernel::multiboot::Memory;
use kernel::task::sem::{Down, Semaphore};
use kernel::task::{create, get, Tasks};

fn tasks(n: usize) -> (Tasks, Region) {
    let mmap = [Memory { size: 20, addr: 0x40_0000, len: 8 * PAGE_SIZE as u64, ty: 1 }];
    let mut reg = mem::init(&mmap, &[], 0).unwrap();
    let mut tasks = Tasks::new(0x10_0800);
    for i in 0..n {
        create(&mut tasks, &mut reg, 0x80_0000 + 0x10_0000 * i);
    }
    (tasks, reg)
}

#[test]
fn new_semaphore_has_its_count_and_no_waiter() {
    let sem = Semaphore::new(3);
    assert_eq!(sem.counter(), 3);
    assert_eq!(sem.waiting_task(), None);
    assert_eq!(Semaphore::new(0).counter(), 0);
}

#[test]
fn down_succeeds_at_once_on_a_count_of_one() {
    let (mut tasks, _) = tasks(2);
    let mut traps = Traps::new();
    let mut sem = Semaphore::new(1);
    assert_eq!(sem.down(&mut tasks, &mut traps), Down::Acquired);
    assert_eq!(sem.counter(), 0);
    assert_eq!(sem.waiting_task(), None);
    // nobody was blocked or switched to
    assert_eq!(tasks.current_id(), 0);
    assert!(!get(&tasks, 0).unwrap().blocked);
    assert_eq!(traps.tss.entry_sp(), 0);
}

#[test]
fn second_down_parks_until_up() {
    let (mut tasks, _) = tasks(2);
    let mut traps = Traps::new();
    let mut sem = Semaphore::new(1);
    // task 0 takes the semaphore
    assert_eq!(sem.down(&mut tasks, &mut traps), Down::Acquired);

    // the second down finds it at zero: task 0 is parked and task 1 runs
    assert_eq!(
        sem.down(&mut tasks, &mut traps),
        Down::Parked(Some(Op::Switch { prev: 0, next: 1 }))
    );
    assert_eq!(sem.counter(), 0);
    assert_eq!(sem.waiting_task(), Some(0));
    assert!(get(&tasks, 0).unwrap().blocked);
    assert_eq!(tasks.current_id(), 1);

    // however often the attempt is made anew, it parks as long as nobody raises
    for _ in 0..4 {
        let cur = tasks.current_id();
        sem.resume();
        assert_eq!(sem.waiting_task(), None);
        assert_eq!(
            sem.down(&mut tasks, &mut traps),
            Down::Parked(Some(Op::Switch { prev: cur, next: 1 - cur }))
        );
        assert_eq!(sem.counter(), 0);
        assert_eq!(sem.waiting_task(), Some(cur));
    }

    // the matching up wakes the waiter
    let waiter = sem.waiting_task().unwrap();
    sem.up(&mut tasks);
    assert_eq!(sem.counter(), 1);
    assert_eq!(sem.waiting_task(), None);
    assert!(!get(&tasks, waiter).unwrap().blocked);

    // and the next attempt succeeds
    sem.resume();
    assert_eq!(sem.down(&mut tasks, &mut traps), Down::Acquired);
    assert_eq!(sem.counter(), 0);
}

#[test]
fn up_without_waiter_only_counts() {
    let (mut tasks, _) = tasks(2);
    let before: Vec<_> = (0..2).map(|id| *get(&tasks, id).unwrap()).collect();
    let mut sem = Semaphore::new(0);
    sem.up(&mut tasks);
    assert_eq!(sem.counter(), 1);
    sem.up(&mut tasks);
    assert_eq!(sem.counter(), 2);
    assert_eq!(sem.waiting_task(), None);
    let after: Vec<_> = (0..2).map(|id| *get(&tasks, id).unwrap()).collect();
    assert_eq!(before, after);
    assert_eq!(tasks.current_id(), 0);
}

#[test]
fn up_unblocks_only_the_waiter() {
    let (mut tasks, _) = tasks(2);
    let mut traps = Traps::new();
    let mut sem = Semaphore::new(0);
    // task 0 parks, then task 1 is blocked for another reason
    sem.down(&mut tasks, &mut traps);
    kernel::task::block(&mut tasks, &mut traps);
    assert!(get(&tasks, 0).unwrap().blocked);
    assert!(get(&tasks, 1).unwrap().blocked);
    sem.up(&mut tasks);
    assert!(!get(&tasks, 0).unwrap().blocked);
    assert!(get(&tasks, 1).unwrap().blocked);
}

#[test]
fn down_of_a_lone_task_parks_without_switch() {
    let (mut tasks, _) = tasks(1);
    let mut traps = Traps::new();
    let mut sem = Semaphore::new(0);
    assert_eq!(sem.down(&mut tasks, &mut traps), Down::Parked(None));
    assert_eq!(sem.waiting_task(), Some(0));
    assert!(get(&tasks, 0).unwrap().blocked);
    assert_eq!(tasks.current_id(), 0);
}

#[test]
fn down_lowers_a_higher_count_step_by_step() {
    let (mut tasks, _) = tasks(2);
    let mut traps = Traps::new();
    let mut sem = Semaphore::new(3);
    for left in [2, 1, 0] {
        assert_eq!(sem.down(&mut tasks, &mut traps), Down::Acquired);
        assert_eq!(sem.counter(), left);
    }
    assert!(matches!(sem.down(&mut tasks, &mut traps), Down::Parked(_)));
    assert_eq!(sem.counter(), 0);
}

#[test]
fn resume_clears_the_waiter_and_keeps_the_count() {
    let (mut tasks, _) = tasks(2);
    let mut traps = Traps::new();
    let mut sem = Semaphore::new(0);
    sem.down(&mut tasks, &mut traps);
    assert_eq!(sem.waiting_task(), Some(0));
    sem.resume();
    assert_eq!(sem.waiting_task(), None);
    assert_eq!(sem.counter(), 0);
}
