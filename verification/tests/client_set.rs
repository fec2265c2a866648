use blackrose::client_set::ClientSet;
use blackrose::stack::Position;
use penrose::builtin::layout::{MainAndStack, Monocle};
use penrose::pure::geometry::Rect;
use penrose::pure::{Stack, StackSet};
use penrose::Xid;

fn screens(n: usize) -> Vec<Rect> {
    (0..n).map(|k| Rect::new(1000 * k as u32, 0, 1000, 800)).collect()
}

fn raw(tags: &[&str], n_screens: usize) -> StackSet<Xid> {
    StackSet::try_new(Default::default(), tags.iter().copied(), screens(n_screens)).unwrap()
}

fn fresh(tags: &[&str], n_screens: usize) -> ClientSet {
    match ClientSet::adopt(raw(tags, n_screens)) {
        Ok(cs) => cs,
        Err(_) => panic!("a new stack set holds nothing twice"),
    }
}

/// A client set with tag "1" holding `ids` in order, the first one focused.
fn with_clients(tags: &[&str], n_screens: usize, ids: &[u32]) -> ClientSet {
    let mut cs = fresh(tags, n_screens);
    for id in ids {
        cs.insert_at(Position::Tail, *id);
    }
    cs
}

fn strings(v: &[&str]) -> Vec<String> {
    v.iter().map(|s| s.to_string()).collect()
}

#[test]
fn a_new_client_set_is_empty() {
    let cs = fresh(&["1", "2", "3"], 2);
    assert_eq!(cs.tags(), strings(&["1", "2", "3"]));
    assert_eq!(cs.visible_tags(), strings(&["1", "2"]));
    assert_eq!(cs.current_tag(), "1");
    assert_eq!(cs.clients("1"), Vec::<u32>::new());
    assert_eq!(cs.current_client(), None);
    assert_eq!(cs.focused("2"), None);
}

#[test]
fn queries_on_an_unknown_tag_find_nothing() {
    let cs = with_clients(&["1", "2"], 1, &[10, 20]);
    assert_eq!(cs.clients("7"), Vec::<u32>::new());
    assert_eq!(cs.focused("7"), None);
}

#[test]
fn insert_at_tail_appends_and_keeps_focus() {
    let cs = with_clients(&["1", "2"], 1, &[10, 20, 30]);
    assert_eq!(cs.clients("1"), vec![10, 20, 30]);
    assert_eq!(cs.current_client(), Some(10));
}

#[test]
fn insert_at_each_position() {
    let mut cs = with_clients(&["1"], 1, &[1, 2, 3]);
    cs.focus_down();
    assert_eq!(cs.current_client(), Some(2));
    cs.insert_at(Position::Focus, 9);
    assert_eq!(cs.clients("1"), vec![1, 9, 2, 3]);
    assert_eq!(cs.current_client(), Some(9));
    cs.insert_at(Position::Before, 8);
    assert_eq!(cs.clients("1"), vec![1, 8, 9, 2, 3]);
    assert_eq!(cs.current_client(), Some(9));
    cs.insert_at(Position::After, 7);
    assert_eq!(cs.clients("1"), vec![1, 8, 9, 7, 2, 3]);
    assert_eq!(cs.current_client(), Some(9));
    cs.insert_at(Position::Head, 6);
    assert_eq!(cs.clients("1"), vec![6, 1, 8, 9, 7, 2, 3]);
    assert_eq!(cs.current_client(), Some(9));
    cs.insert_at(Position::Tail, 5);
    assert_eq!(cs.clients("1"), vec![6, 1, 8, 9, 7, 2, 3, 5]);
    assert_eq!(cs.current_client(), Some(9));
}

#[test]
fn insert_at_of_a_present_window_changes_nothing() {
    let mut cs = with_clients(&["1", "2"], 1, &[1, 2, 3]);
    cs.focus_tag("2");
    cs.insert_at(Position::Head, 2);
    assert_eq!(cs.clients("1"), vec![1, 2, 3]);
    assert_eq!(cs.clients("2"), Vec::<u32>::new());
    cs.focus_tag("1");
    cs.insert_at(Position::Tail, 1);
    assert_eq!(cs.clients("1"), vec![1, 2, 3]);
    assert_eq!(cs.current_client(), Some(1));
}

#[test]
fn focus_moves_and_wraps() {
    let mut cs = with_clients(&["1"], 1, &[1, 2, 3]);
    cs.focus_up();
    assert_eq!(cs.current_client(), Some(3));
    assert_eq!(cs.clients("1"), vec![1, 2, 3]);
    cs.focus_up();
    assert_eq!(cs.current_client(), Some(2));
    cs.focus_down();
    assert_eq!(cs.current_client(), Some(3));
    cs.focus_down();
    assert_eq!(cs.current_client(), Some(1));
    assert_eq!(cs.clients("1"), vec![1, 2, 3]);
}

#[test]
fn moves_on_an_empty_stack_change_nothing() {
    let mut cs = fresh(&["1", "2"], 1);
    cs.focus_up();
    cs.focus_down();
    cs.swap_up();
    cs.swap_down();
    cs.rotate_focus_to_head();
    cs.focus_head();
    cs.kill_focused();
    cs.move_focused_to_tag("2");
    assert_eq!(cs.clients("1"), Vec::<u32>::new());
    assert_eq!(cs.clients("2"), Vec::<u32>::new());
    assert_eq!(cs.current_client(), None);
}

#[test]
fn moves_on_a_single_window_change_nothing() {
    let mut cs = with_clients(&["1"], 1, &[4]);
    cs.focus_up();
    cs.focus_down();
    cs.swap_up();
    cs.swap_down();
    cs.rotate_focus_to_head();
    cs.focus_head();
    assert_eq!(cs.clients("1"), vec![4]);
    assert_eq!(cs.current_client(), Some(4));
}

#[test]
fn swap_up_and_down_in_the_middle() {
    let mut cs = with_clients(&["1"], 1, &[1, 2, 3, 4]);
    cs.focus_down();
    cs.swap_down();
    assert_eq!(cs.clients("1"), vec![1, 3, 2, 4]);
    assert_eq!(cs.current_client(), Some(2));
    cs.swap_up();
    cs.swap_up();
    assert_eq!(cs.clients("1"), vec![2, 1, 3, 4]);
    assert_eq!(cs.current_client(), Some(2));
}

#[test]
fn swap_wraps_by_moving_the_focused_window_to_the_other_end() {
    let mut cs = with_clients(&["1"], 1, &[1, 2, 3, 4]);
    cs.swap_up();
    assert_eq!(cs.clients("1"), vec![2, 3, 4, 1]);
    assert_eq!(cs.current_client(), Some(1));
    cs.swap_down();
    assert_eq!(cs.clients("1"), vec![1, 2, 3, 4]);
    assert_eq!(cs.current_client(), Some(1));
}

#[test]
fn rotate_focus_to_head_rotates_the_stack() {
    let mut cs = with_clients(&["1"], 1, &[1, 2, 3, 4]);
    cs.focus_down();
    cs.focus_down();
    cs.rotate_focus_to_head();
    assert_eq!(cs.clients("1"), vec![3, 4, 1, 2]);
    assert_eq!(cs.current_client(), Some(3));
}

#[test]
fn focus_head_from_the_second_and_third_place_keeps_the_order() {
    let mut cs = with_clients(&["1"], 1, &[1, 2, 3, 4, 5]);
    cs.focus_down();
    cs.focus_head();
    assert_eq!(cs.clients("1"), vec![1, 2, 3, 4, 5]);
    assert_eq!(cs.current_client(), Some(1));
    cs.focus_down();
    cs.focus_down();
    cs.focus_head();
    assert_eq!(cs.clients("1"), vec![1, 2, 3, 4, 5]);
    assert_eq!(cs.current_client(), Some(1));
}

#[test]
fn focus_head_from_further_down_reverses_what_lay_between() {
    let mut cs = with_clients(&["1"], 1, &[1, 2, 3, 4, 5]);
    cs.focus_down();
    cs.focus_down();
    cs.focus_down();
    assert_eq!(cs.current_client(), Some(4));
    cs.focus_head();
    assert_eq!(cs.clients("1"), vec![1, 3, 2, 4, 5]);
    assert_eq!(cs.current_client(), Some(1));
}

#[test]
fn remove_client_above_below_and_at_the_focus() {
    let mut cs = with_clients(&["1"], 1, &[1, 2, 3, 4, 5]);
    cs.focus_down();
    cs.focus_down();
    assert_eq!(cs.remove_client(1), Some(1));
    assert_eq!(cs.clients("1"), vec![2, 3, 4, 5]);
    assert_eq!(cs.current_client(), Some(3));
    assert_eq!(cs.remove_client(5), Some(5));
    assert_eq!(cs.clients("1"), vec![2, 3, 4]);
    assert_eq!(cs.current_client(), Some(3));
    assert_eq!(cs.remove_client(3), Some(3));
    assert_eq!(cs.clients("1"), vec![2, 4]);
    assert_eq!(cs.current_client(), Some(4));
    assert_eq!(cs.remove_client(4), Some(4));
    assert_eq!(cs.clients("1"), vec![2]);
    assert_eq!(cs.current_client(), Some(2));
    assert_eq!(cs.remove_client(2), Some(2));
    assert_eq!(cs.clients("1"), Vec::<u32>::new());
    assert_eq!(cs.current_client(), None);
}

#[test]
fn remove_client_twice_is_quiet() {
    let mut cs = with_clients(&["1", "2"], 1, &[1, 2, 3]);
    assert_eq!(cs.remove_client(2), Some(2));
    let tags = cs.tags();
    let clients = cs.clients("1");
    let focus = cs.current_client();
    assert_eq!(cs.remove_client(2), None);
    assert_eq!(cs.tags(), tags);
    assert_eq!(cs.clients("1"), clients);
    assert_eq!(cs.current_client(), focus);
}

#[test]
fn remove_client_finds_a_window_on_a_hidden_tag() {
    let mut cs = with_clients(&["1", "2", "3"], 1, &[1, 2, 3]);
    cs.focus_tag("3");
    cs.insert_at(Position::Tail, 7);
    assert_eq!(cs.remove_client(2), Some(2));
    assert_eq!(cs.clients("1"), vec![1, 3]);
    assert_eq!(cs.focused("1"), Some(1));
    assert_eq!(cs.clients("3"), vec![7]);
    assert_eq!(cs.current_tag(), "3");
}

#[test]
fn remove_client_makes_a_floating_window_sink() {
    let mut inner = raw(&["1", "2"], 1);
    inner.insert(Xid::from(5));
    inner.insert(Xid::from(6));
    inner.float(Xid::from(5), Rect::new(10, 10, 100, 100)).unwrap();
    let mut cs = ClientSet::adopt(inner).ok().unwrap();
    assert!(cs.is_floating(5));
    assert!(!cs.is_floating(6));
    assert_eq!(cs.remove_client(5), Some(5));
    assert!(!cs.is_floating(5));
    assert_eq!(cs.clients("1"), vec![6]);
}

#[test]
fn move_focused_to_tag_keeps_a_window_floating() {
    let mut inner = raw(&["1", "2"], 1);
    inner.insert(Xid::from(5));
    inner.float(Xid::from(5), Rect::new(10, 10, 100, 100)).unwrap();
    let mut cs = ClientSet::adopt(inner).ok().unwrap();
    cs.move_focused_to_tag("2");
    assert!(cs.is_floating(5));
    assert_eq!(cs.clients("2"), vec![5]);
}

#[test]
fn focus_client_on_the_current_tag() {
    let mut cs = with_clients(&["1", "2"], 1, &[1, 2, 3, 4]);
    cs.focus_client(3);
    assert_eq!(cs.current_client(), Some(3));
    assert_eq!(cs.clients("1"), vec![1, 2, 3, 4]);
    cs.focus_client(1);
    assert_eq!(cs.current_client(), Some(1));
    assert_eq!(cs.clients("1"), vec![1, 2, 3, 4]);
    cs.focus_client(4);
    assert_eq!(cs.current_client(), Some(4));
    assert_eq!(cs.clients("1"), vec![1, 2, 3, 4]);
}

#[test]
fn focus_client_of_an_unknown_window_changes_nothing() {
    let mut cs = with_clients(&["1", "2"], 1, &[1, 2, 3]);
    cs.focus_client(99);
    assert_eq!(cs.current_client(), Some(1));
    assert_eq!(cs.clients("1"), vec![1, 2, 3]);
    assert_eq!(cs.current_tag(), "1");
}

#[test]
fn focus_client_brings_a_hidden_tag_to_the_front() {
    let mut cs = with_clients(&["1", "2", "3"], 1, &[1, 2, 3]);
    cs.focus_tag("2");
    cs.insert_at(Position::Tail, 8);
    cs.focus_client(3);
    assert_eq!(cs.current_tag(), "1");
    assert_eq!(cs.current_client(), Some(3));
    assert_eq!(cs.clients("1"), vec![1, 2, 3]);
    assert_eq!(cs.tags(), strings(&["1", "3", "2"]));
}

#[test]
fn focus_client_moves_to_the_screen_that_shows_the_window() {
    let mut cs = with_clients(&["1", "2", "3"], 2, &[1, 2]);
    cs.focus_tag("2");
    cs.insert_at(Position::Tail, 8);
    assert_eq!(cs.visible_tags(), strings(&["1", "2"]));
    cs.focus_client(2);
    assert_eq!(cs.current_tag(), "1");
    assert_eq!(cs.visible_tags(), strings(&["1", "2"]));
    assert_eq!(cs.current_client(), Some(2));
    assert_eq!(cs.focused("2"), Some(8));
}

#[test]
fn focus_tag_of_the_current_or_an_unknown_tag_changes_nothing() {
    let mut cs = fresh(&["1", "2", "3"], 2);
    cs.focus_tag("1");
    assert_eq!(cs.tags(), strings(&["1", "2", "3"]));
    assert_eq!(cs.current_tag(), "1");
    cs.focus_tag("nine");
    assert_eq!(cs.tags(), strings(&["1", "2", "3"]));
    assert_eq!(cs.current_tag(), "1");
}

#[test]
fn focus_tag_of_a_visible_tag_moves_to_its_screen() {
    let mut cs = fresh(&["1", "2", "3", "4"], 3);
    cs.focus_tag("3");
    assert_eq!(cs.current_tag(), "3");
    assert_eq!(cs.visible_tags(), strings(&["1", "2", "3"]));
    assert_eq!(cs.tags(), strings(&["1", "2", "3", "4"]));
    cs.focus_tag("2");
    assert_eq!(cs.current_tag(), "2");
    assert_eq!(cs.visible_tags(), strings(&["1", "2", "3"]));
}

#[test]
fn focus_tag_of_a_hidden_tag_swaps_it_onto_the_active_screen() {
    let mut cs = fresh(&["1", "2", "3", "4", "5"], 2);
    cs.focus_tag("4");
    assert_eq!(cs.current_tag(), "4");
    assert_eq!(cs.visible_tags(), strings(&["4", "2"]));
    assert_eq!(cs.tags(), strings(&["4", "2", "3", "5", "1"]));
    cs.focus_tag("2");
    cs.focus_tag("3");
    assert_eq!(cs.visible_tags(), strings(&["4", "3"]));
    assert_eq!(cs.tags(), strings(&["4", "3", "5", "1", "2"]));
}

#[test]
fn toggle_tag_goes_back_and_forth() {
    let mut cs = fresh(&["1", "2", "3"], 1);
    cs.toggle_tag();
    assert_eq!(cs.current_tag(), "1");
    cs.focus_tag("3");
    cs.toggle_tag();
    assert_eq!(cs.current_tag(), "1");
    cs.toggle_tag();
    assert_eq!(cs.current_tag(), "3");
}

#[test]
fn toggle_tag_after_a_change_of_screen() {
    let mut cs = fresh(&["1", "2", "3"], 2);
    cs.next_screen();
    assert_eq!(cs.current_tag(), "2");
    cs.toggle_tag();
    assert_eq!(cs.current_tag(), "1");
    assert_eq!(cs.visible_tags(), strings(&["1", "2"]));
}

#[test]
fn screens_cycle_in_both_directions() {
    let mut cs = fresh(&["1", "2", "3", "4"], 3);
    cs.next_screen();
    assert_eq!(cs.current_tag(), "2");
    cs.next_screen();
    assert_eq!(cs.current_tag(), "3");
    cs.next_screen();
    assert_eq!(cs.current_tag(), "1");
    cs.previous_screen();
    assert_eq!(cs.current_tag(), "3");
    cs.previous_screen();
    assert_eq!(cs.current_tag(), "2");
    assert_eq!(cs.visible_tags(), strings(&["1", "2", "3"]));
    assert_eq!(cs.tags(), strings(&["1", "2", "3", "4"]));
}

#[test]
fn a_single_screen_stays_active() {
    let mut cs = fresh(&["1", "2"], 1);
    cs.focus_tag("2");
    cs.next_screen();
    cs.previous_screen();
    assert_eq!(cs.current_tag(), "2");
    cs.toggle_tag();
    assert_eq!(cs.current_tag(), "1");
}

#[test]
fn move_focused_to_tag_lands_on_the_focus_of_the_target() {
    let mut cs = with_clients(&["1", "2"], 1, &[1, 2, 3]);
    cs.focus_down();
    cs.move_focused_to_tag("2");
    assert_eq!(cs.clients("1"), vec![1, 3]);
    assert_eq!(cs.current_client(), Some(3));
    assert_eq!(cs.clients("2"), vec![2]);
    assert_eq!(cs.focused("2"), Some(2));
    cs.move_focused_to_tag("2");
    assert_eq!(cs.clients("1"), vec![1]);
    assert_eq!(cs.current_client(), Some(1));
    assert_eq!(cs.clients("2"), vec![3, 2]);
    assert_eq!(cs.focused("2"), Some(3));
    cs.move_focused_to_tag("2");
    assert_eq!(cs.clients("1"), Vec::<u32>::new());
    assert_eq!(cs.clients("2"), vec![1, 3, 2]);
    assert_eq!(cs.focused("2"), Some(1));
    assert_eq!(cs.current_tag(), "1");
}

#[test]
fn move_focused_to_the_current_tag_changes_nothing() {
    let mut cs = with_clients(&["1", "2"], 1, &[1, 2, 3]);
    cs.focus_down();
    cs.move_focused_to_tag("1");
    assert_eq!(cs.clients("1"), vec![1, 2, 3]);
    assert_eq!(cs.current_client(), Some(2));
    assert_eq!(cs.clients("2"), Vec::<u32>::new());
}

#[test]
fn move_focused_to_an_unknown_tag_changes_nothing() {
    let mut cs = with_clients(&["1", "2"], 1, &[1, 2, 3]);
    cs.move_focused_to_tag("8");
    assert_eq!(cs.clients("1"), vec![1, 2, 3]);
    assert_eq!(cs.current_client(), Some(1));
}

#[test]
fn kill_focused_removes_the_focused_window() {
    let mut cs = with_clients(&["1"], 1, &[1, 2, 3]);
    cs.focus_down();
    cs.kill_focused();
    assert_eq!(cs.clients("1"), vec![1, 3]);
    assert_eq!(cs.current_client(), Some(3));
    cs.kill_focused();
    assert_eq!(cs.clients("1"), vec![1]);
    assert_eq!(cs.current_client(), Some(1));
}

/// A client set whose tags each have two layouts to cycle through.
fn with_two_layouts() -> ClientSet {
    let layouts = Stack::new([], MainAndStack::boxed_default(), [Monocle::boxed()]);
    let inner: StackSet<Xid> = StackSet::try_new(layouts, ["1", "2"], screens(1)).unwrap();
    ClientSet::adopt(inner).ok().unwrap()
}

fn layout_name(cs: ClientSet) -> (ClientSet, String) {
    let inner = cs.release();
    let name = inner.current_workspace().layout_name();
    (ClientSet::adopt(inner).ok().unwrap(), name)
}

#[test]
fn layouts_cycle_back_to_the_first() {
    let cs = with_two_layouts();
    let (mut cs, first) = layout_name(cs);
    cs.next_layout();
    let (mut cs, second) = layout_name(cs);
    assert_ne!(first, second);
    cs.next_layout();
    let (mut cs, third) = layout_name(cs);
    assert_eq!(first, third);
    cs.previous_layout();
    let (mut cs, fourth) = layout_name(cs);
    assert_eq!(second, fourth);
    cs.previous_layout();
    let (_, fifth) = layout_name(cs);
    assert_eq!(first, fifth);
}

#[test]
fn layouts_cycle_on_the_current_tag_only() {
    let cs = with_two_layouts();
    let (mut cs, first) = layout_name(cs);
    cs.next_layout();
    cs.focus_tag("2");
    let (_, other) = layout_name(cs);
    assert_eq!(first, other);
}

#[test]
fn adopt_refuses_a_window_that_occurs_twice_in_a_stack() {
    let mut inner = raw(&["1", "2"], 1);
    inner.modify(|_| Some(Stack::new(vec![Xid::from(1)], Xid::from(2), vec![Xid::from(1)])));
    assert!(ClientSet::adopt(inner).is_err());
}

#[test]
fn adopt_refuses_a_window_that_is_on_two_tags() {
    let mut inner = raw(&["1", "2"], 1);
    inner.insert(Xid::from(1));
    inner.focus_tag("2");
    inner.modify(|_| Some(Stack::new(vec![Xid::from(3)], Xid::from(1), Vec::<Xid>::new())));
    assert!(ClientSet::adopt(inner).is_err());
}

#[test]
fn adopt_and_release_hand_the_stack_set_through() {
    let mut inner = raw(&["1", "2"], 1);
    inner.insert(Xid::from(4));
    inner.insert(Xid::from(5));
    let cs = ClientSet::adopt(inner).ok().unwrap();
    assert_eq!(cs.clients("1"), vec![5, 4]);
    let back = cs.release();
    assert_eq!(back.current_client(), Some(&Xid::from(5)));
    assert!(back.contains(&Xid::from(4)));
}

#[test]
fn swap_down_twice_on_two_windows_comes_back() {
    let (a, b) = (11, 22);
    let mut cs = with_clients(&["1"], 1, &[a, b]);
    assert_eq!(cs.current_client(), Some(a));
    cs.swap_down();
    assert_eq!(cs.clients("1"), vec![b, a]);
    assert_eq!(cs.current_client(), Some(a));
    cs.swap_down();
    assert_eq!(cs.clients("1"), vec![a, b]);
    assert_eq!(cs.current_client(), Some(a));
}

#[test]
fn insert_at_tail_then_focus_client_focuses_the_window() {
    let mut cs = with_clients(&["1", "2"], 1, &[1, 2, 3]);
    cs.insert_at(Position::Tail, 4);
    cs.focus_client(4);
    assert_eq!(cs.current_client(), Some(4));
    assert_eq!(cs.clients("1"), vec![1, 2, 3, 4]);
    // A window that is already on another tag is focused where it is.
    cs.focus_tag("2");
    cs.insert_at(Position::Tail, 2);
    cs.focus_client(2);
    assert_eq!(cs.current_client(), Some(2));
    assert_eq!(cs.current_tag(), "1");
}

#[test]
fn swaps_and_focus_moves_undo_each_other() {
    for steps in 0..4 {
        let mut cs = with_clients(&["1"], 1, &[1, 2, 3, 4]);
        for _ in 0..steps {
            cs.focus_down();
        }
        let focus = cs.current_client();
        cs.swap_down();
        cs.swap_up();
        assert_eq!(cs.clients("1"), vec![1, 2, 3, 4]);
        cs.swap_up();
        cs.swap_down();
        assert_eq!(cs.clients("1"), vec![1, 2, 3, 4]);
        cs.focus_up();
        cs.focus_down();
        cs.focus_down();
        cs.focus_up();
        assert_eq!(cs.current_client(), focus);
    }
}
