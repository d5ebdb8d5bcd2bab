use zagent::extras::teams::task_board::{Priority, TaskBoard, TaskBoardError, TaskId, TaskStatus};

fn status_of(board: &TaskBoard, id: TaskId) -> TaskStatus {
    board.list().iter().find(|t| t.id == id).unwrap().status
}

#[test]
fn ids_count_up_from_one() {
    let mut board = TaskBoard::new();
    let a = board.add("a".to_string(), Priority::High, vec![]);
    let b = board.add("b".to_string(), Priority::Low, vec![]);
    assert_eq!(a, TaskId(1));
    assert_eq!(b, TaskId(2));
    assert_eq!(board.next_id(), 3);
}

#[test]
fn default_board_counts_from_zero() {
    let mut board = TaskBoard::default();
    let a = board.add("a".to_string(), Priority::Medium, vec![]);
    assert_eq!(a, TaskId(0));
}

#[test]
fn list_is_sorted_by_id() {
    let mut board = TaskBoard::new();
    for i in 0..5 {
        board.add(format!("task {}", i), Priority::Medium, vec![]);
    }
    let ids: Vec<u32> = board.list().iter().map(|t| t.id.0).collect();
    assert_eq!(ids, vec![1, 2, 3, 4, 5]);
}

#[test]
fn stays_blocked_until_every_dependency_is_done() {
    let mut board = TaskBoard::new();
    let a = board.add("a".to_string(), Priority::Low, vec![]);
    let b = board.add("b".to_string(), Priority::Low, vec![]);
    let c = board.add("c".to_string(), Priority::High, vec![a, b]);
    assert_eq!(status_of(&board, c), TaskStatus::Blocked);
    board.mark_done(a).unwrap();
    assert_eq!(status_of(&board, c), TaskStatus::Blocked);
    board.mark_done(b).unwrap();
    assert_eq!(status_of(&board, c), TaskStatus::Pending);
}

#[test]
fn unknown_dependency_does_not_block() {
    let mut board = TaskBoard::new();
    let t = board.add("t".to_string(), Priority::Low, vec![TaskId(77)]);
    assert_eq!(status_of(&board, t), TaskStatus::Pending);
}

#[test]
fn done_dependency_does_not_block() {
    let mut board = TaskBoard::new();
    let a = board.add("a".to_string(), Priority::Low, vec![]);
    board.mark_done(a).unwrap();
    let t = board.add("t".to_string(), Priority::Low, vec![a]);
    assert_eq!(status_of(&board, t), TaskStatus::Pending);
}

#[test]
fn done_is_final() {
    let mut board = TaskBoard::new();
    let a = board.add("a".to_string(), Priority::Low, vec![]);
    board.mark_done(a).unwrap();
    board.mark_done(a).unwrap();
    assert_eq!(status_of(&board, a), TaskStatus::Done);
    assert_eq!(board.claim(a), Err(TaskBoardError::NotPending(a, TaskStatus::Done)));
    assert_eq!(status_of(&board, a), TaskStatus::Done);
}

#[test]
fn claimed_task_can_be_done() {
    let mut board = TaskBoard::new();
    let a = board.add("a".to_string(), Priority::Low, vec![]);
    assert_eq!(board.claim(a).unwrap(), "a");
    assert_eq!(board.claim(a), Err(TaskBoardError::NotPending(a, TaskStatus::InProgress)));
    board.mark_done(a).unwrap();
    assert_eq!(status_of(&board, a), TaskStatus::Done);
}

#[test]
fn blocked_task_marked_done_directly() {
    let mut board = TaskBoard::new();
    let a = board.add("a".to_string(), Priority::Low, vec![]);
    let b = board.add("b".to_string(), Priority::Low, vec![a]);
    board.mark_done(b).unwrap();
    assert_eq!(status_of(&board, b), TaskStatus::Done);
    assert_eq!(status_of(&board, a), TaskStatus::Pending);
}

#[test]
fn summary_adds_up() {
    let mut board = TaskBoard::new();
    let a = board.add("a".to_string(), Priority::Low, vec![]);
    let b = board.add("b".to_string(), Priority::Low, vec![a]);
    let c = board.add("c".to_string(), Priority::Low, vec![]);
    let _d = board.add("d".to_string(), Priority::Low, vec![b]);
    board.claim(c).unwrap();
    let s = board.summary();
    assert_eq!(s.total, 4);
    assert_eq!(s.pending, 1);
    assert_eq!(s.blocked, 2);
    assert_eq!(s.in_progress, 1);
    assert_eq!(s.done, 0);
    assert_eq!(s.done + s.pending + s.blocked + s.in_progress, s.total);
}

#[test]
fn error_messages() {
    assert_eq!(TaskBoardError::NotFound(TaskId(999)).message(), "task 999 not found");
    assert_eq!(
        TaskBoardError::NotPending(TaskId(3), TaskStatus::Blocked).message(),
        "task 3 is blocked (must be pending to claim)"
    );
    let mut board = TaskBoard::new();
    assert_eq!(board.claim(TaskId(4)), Err(TaskBoardError::NotFound(TaskId(4))));
}

#[test]
fn names_of_statuses_and_priorities() {
    assert_eq!(TaskStatus::InProgress.to_string(), "in_progress");
    assert_eq!(TaskStatus::Blocked.to_string(), "blocked");
    assert_eq!(TaskStatus::Pending.to_string(), "pending");
    assert_eq!(TaskStatus::Done.to_string(), "done");
    assert_eq!(Priority::High.to_string(), "high");
    assert_eq!(Priority::Medium.to_string(), "medium");
    assert_eq!(Priority::Low.to_string(), "low");
    assert_eq!(TaskId(0).to_string(), "0");
    assert_eq!(TaskId(4294967295).to_string(), "4294967295");
}

#[test]
fn pending_exactly_when_earlier_dependencies_are_done() {
    let mut board = TaskBoard::new();
    let a = board.add("a".to_string(), Priority::Low, vec![]);
    let b = board.add("b".to_string(), Priority::Low, vec![]);
    let c = board.add("c".to_string(), Priority::Low, vec![a, b]);
    assert_eq!(status_of(&board, c), TaskStatus::Blocked);
    board.mark_done(a).unwrap();
    assert_eq!(status_of(&board, c), TaskStatus::Blocked);
    board.mark_done(b).unwrap();
    assert_eq!(status_of(&board, c), TaskStatus::Pending);
}

#[test]
fn dependency_on_a_later_task_does_not_block() {
    let mut board = TaskBoard::new();
    let a = board.add("a".to_string(), Priority::Low, vec![TaskId(2)]);
    let _b = board.add("b".to_string(), Priority::Low, vec![]);
    assert_eq!(status_of(&board, a), TaskStatus::Pending);
}
