use nfq_filter::pool::{
    normalize_thread_count, split_pools, AllocStep, QueueAlloc, DEFAULT_THREADS, QUEUE_BASE_NUM,
};

// Drive the allocation state machine against a simulated kernel in which
// `busy` numbers belong to another process, and collect every number the
// machine asks to give back.
fn run_alloc(count: u16, base: u16, busy: &[u16]) -> (Option<(u16, u16)>, Vec<u16>) {
    let mut alloc = QueueAlloc::new(count, base);
    let mut unbound: Vec<u16> = Vec::new();
    loop {
        match alloc.next() {
            AllocStep::Bind(q) => {
                if busy.contains(&q) {
                    let mut give_back = alloc.bind_conflict(q);
                    unbound.append(&mut give_back);
                } else {
                    alloc.bind_ok(q);
                }
            }
            AllocStep::Done => return (Some(alloc.range()), unbound),
            AllocStep::Exhausted => return (None, unbound),
        }
    }
}

#[test]
fn clean_window_binds_at_base() {
    let (range, unbound) = run_alloc(4, QUEUE_BASE_NUM, &[]);
    assert_eq!(range, Some((1000, 1003)));
    assert!(unbound.is_empty());
}

#[test]
fn conflicts_move_the_window_past_the_busy_number() {
    // two numbers of the initial window are foreign-owned
    let busy: Vec<u16> = vec![1000, 1002];
    let (range, unbound) = run_alloc(3, 1000, &busy);
    // the bound block is three consecutive numbers clear of the busy ones
    assert_eq!(range, Some((1003, 1005)));
    // the pool gave back only numbers it had itself bound: never a busy one
    for q in &unbound {
        assert!(!busy.contains(q));
    }
}

#[test]
fn conflict_returns_exactly_the_numbers_bound_so_far() {
    let mut alloc = QueueAlloc::new(2, 1000);
    assert_eq!(alloc.next(), AllocStep::Bind(1001));
    alloc.bind_ok(1001);
    assert_eq!(alloc.next(), AllocStep::Bind(1000));
    let give_back = alloc.bind_conflict(1000);
    assert_eq!(give_back, vec![1001]);
    // the window moved past the conflict and the next attempt starts fresh
    assert_eq!(alloc.next(), AllocStep::Bind(1002));
    alloc.bind_ok(1002);
    assert_eq!(alloc.next(), AllocStep::Bind(1001));
    alloc.bind_ok(1001);
    assert_eq!(alloc.next(), AllocStep::Done);
    assert_eq!(alloc.range(), (1001, 1002));
}

#[test]
fn number_space_exhaustion_is_reported() {
    // a permanently busy number at the very top of the space
    let (range, _) = run_alloc(2, 0xfffe, &[0xffff]);
    assert_eq!(range, None);
}

#[test]
fn scan_is_top_down_within_the_window() {
    let mut alloc = QueueAlloc::new(3, 2000);
    assert_eq!(alloc.next(), AllocStep::Bind(2002));
    alloc.bind_ok(2002);
    assert_eq!(alloc.next(), AllocStep::Bind(2001));
    alloc.bind_ok(2001);
    assert_eq!(alloc.next(), AllocStep::Bind(2000));
    alloc.bind_ok(2000);
    assert_eq!(alloc.next(), AllocStep::Done);
    assert_eq!(alloc.range(), (2000, 2002));
}

#[test]
fn thread_count_rounds_up_to_even() {
    assert_eq!(normalize_thread_count(None), DEFAULT_THREADS);
    assert_eq!(normalize_thread_count(Some(4)), 4);
    assert_eq!(normalize_thread_count(Some(5)), 6);
    assert_eq!(normalize_thread_count(Some(0)), 0);
    assert_eq!(normalize_thread_count(Some(u16::MAX)), u16::MAX - 1);
}

#[test]
fn pools_split_the_thread_count_evenly() {
    assert_eq!(split_pools(6), (3, 3));
    assert_eq!(split_pools(2), (1, 1));
}
