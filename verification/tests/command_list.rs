use mvc_core::command_queue::CommandList;

#[test]
fn new_list_is_empty() {
    let q: CommandList<u32> = CommandList::new();
    assert!(q.is_empty());
    assert!(q.is_current_frame_empty());
    assert!(q.is_only_frame());
}

#[test]
fn pop_on_empty_returns_none() {
    let mut q: CommandList<u32> = CommandList::new();
    assert_eq!(q.pop_command(), None);
    assert_eq!(q.pop_command_and_maybe_frame(), None);
}

#[test]
fn fifo_order_within_one_frame() {
    let mut q: CommandList<u32> = CommandList::new();
    q.add_command_to_current_frame(1);
    q.add_command_to_current_frame(2);
    q.add_command_to_current_frame(3);
    assert_eq!(q.pop_command(), Some(1));
    assert_eq!(q.pop_command(), Some(2));
    assert_eq!(q.pop_command(), Some(3));
    assert_eq!(q.pop_command(), None);
}

#[test]
fn immediate_command_jumps_the_queue() {
    let mut q: CommandList<u32> = CommandList::new();
    q.add_command_to_current_frame(2);
    q.add_command_to_current_frame(3);
    q.push_immediate_command(1);
    assert_eq!(q.pop_command(), Some(1));
    assert_eq!(q.pop_command(), Some(2));
    assert_eq!(q.pop_command(), Some(3));
}

#[test]
fn bottom_frame_runs_after_nested_frames() {
    let mut q: CommandList<u32> = CommandList::new();
    q.add_command_to_current_frame(1);
    q.start_new_frame();
    q.add_command_to_current_frame(2);
    q.add_command_to_bottom_frame(3);
    assert_eq!(q.pop_command_and_maybe_frame(), Some(2));
    assert_eq!(q.pop_command_and_maybe_frame(), Some(1));
    assert_eq!(q.pop_command_and_maybe_frame(), Some(3));
    assert_eq!(q.pop_command_and_maybe_frame(), None);
}

#[test]
fn interleaved_insertions_drain_in_documented_order() {
    let mut q: CommandList<u32> = CommandList::new();
    q.add_command_to_current_frame(10);
    q.start_new_frame();
    q.add_command_to_current_frame(21);
    q.push_immediate_command(20);
    q.add_command_to_current_frame(22);
    q.add_command_to_bottom_frame(30);
    // Active frame: 20 (front insertion) before 21 and 22; then the
    // stashed outer frame's 10; the bottom insertion 30 comes last.
    let mut drained = Vec::new();
    while let Some(x) = q.pop_command_and_maybe_frame() {
        drained.push(x);
    }
    assert_eq!(drained, vec![20, 21, 22, 10, 30]);
    assert!(q.is_empty());
}

#[test]
fn stash_then_restore_round_trips() {
    let mut q: CommandList<u32> = CommandList::new();
    q.add_command_to_current_frame(7);
    q.add_command_to_current_frame(8);
    q.start_new_frame();
    assert!(q.is_current_frame_empty());
    assert!(!q.is_only_frame());
    assert!(q.maybe_pop_frame());
    assert!(q.is_only_frame());
    assert_eq!(q.pop_command(), Some(7));
    assert_eq!(q.pop_command(), Some(8));
    assert_eq!(q.pop_command(), None);
}

#[test]
fn restore_refuses_while_active_frame_has_commands() {
    let mut q: CommandList<u32> = CommandList::new();
    q.add_command_to_current_frame(1);
    q.start_new_frame();
    q.add_command_to_current_frame(2);
    assert!(!q.maybe_pop_frame());
    assert_eq!(q.pop_command(), Some(2));
}

#[test]
fn restore_refuses_without_stashed_frames() {
    let mut q: CommandList<u32> = CommandList::new();
    assert!(!q.maybe_pop_frame());
    q.add_command_to_current_frame(1);
    assert!(!q.maybe_pop_frame());
}

#[test]
fn emptiness_ignores_empty_stashed_frames() {
    let mut q: CommandList<u32> = CommandList::new();
    q.start_new_frame();
    q.start_new_frame();
    assert!(q.is_empty());
    assert!(!q.is_only_frame());
}

#[test]
fn one_command_anywhere_makes_it_non_empty() {
    let mut active_only: CommandList<u32> = CommandList::new();
    active_only.add_command_to_current_frame(1);
    assert!(!active_only.is_empty());

    let mut stashed_only: CommandList<u32> = CommandList::new();
    stashed_only.add_command_to_current_frame(1);
    stashed_only.start_new_frame();
    assert!(stashed_only.is_current_frame_empty());
    assert!(!stashed_only.is_empty());
}

#[test]
fn plain_pop_does_not_cross_frames() {
    let mut q: CommandList<u32> = CommandList::new();
    q.add_command_to_current_frame(1);
    q.start_new_frame();
    assert_eq!(q.pop_command(), None);
    assert_eq!(q.pop_command_and_maybe_frame(), Some(1));
}

#[test]
fn crossing_pop_leaves_a_single_empty_frame_when_exhausted() {
    let mut q: CommandList<u32> = CommandList::new();
    q.add_command_to_current_frame(1);
    q.start_new_frame();
    q.start_new_frame();
    assert_eq!(q.pop_command_and_maybe_frame(), Some(1));
    assert_eq!(q.pop_command_and_maybe_frame(), None);
    assert!(q.is_only_frame());
    assert!(q.is_empty());
}

#[test]
fn append_to_current_frame_keeps_order() {
    let mut q: CommandList<u32> = CommandList::new();
    q.add_command_to_current_frame(1);
    q.append_commands_to_current_frame(vec![2, 3, 4]);
    assert_eq!(q.pop_command(), Some(1));
    assert_eq!(q.pop_command(), Some(2));
    assert_eq!(q.pop_command(), Some(3));
    assert_eq!(q.pop_command(), Some(4));
}

#[test]
fn append_to_bottom_frame_lands_behind_everything() {
    let mut q: CommandList<u32> = CommandList::new();
    q.add_command_to_current_frame(1);
    q.start_new_frame();
    q.add_command_to_current_frame(2);
    q.append_commands_to_bottom_frame(vec![3, 4]);
    let mut drained = Vec::new();
    while let Some(x) = q.pop_command_and_maybe_frame() {
        drained.push(x);
    }
    assert_eq!(drained, vec![2, 1, 3, 4]);
}

#[test]
fn append_to_bottom_frame_without_stash_extends_active() {
    let mut q: CommandList<u32> = CommandList::new();
    q.add_command_to_current_frame(1);
    q.append_commands_to_bottom_frame(vec![2, 3]);
    assert_eq!(q.pop_command(), Some(1));
    assert_eq!(q.pop_command(), Some(2));
    assert_eq!(q.pop_command(), Some(3));
}
