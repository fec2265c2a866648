use blackrose::client_set::ClientSet;
use blackrose::hooks::manage_place_at_tail;
use blackrose::stack::Position;
use penrose::pure::geometry::Rect;
use penrose::pure::StackSet;
use penrose::Xid;

fn client_set(tags: &[&str], n_screens: usize) -> ClientSet {
    let rects: Vec<Rect> =
        (0..n_screens).map(|k| Rect::new(1000 * k as u32, 0, 1000, 800)).collect();
    let inner: StackSet<Xid> =
        StackSet::try_new(Default::default(), tags.iter().copied(), rects).unwrap();
    ClientSet::adopt(inner).ok().unwrap()
}

#[test]
fn a_managed_window_goes_to_the_tail_and_takes_the_focus() {
    let (a, b, w) = (1, 2, 3);
    let mut cs = client_set(&["1", "2"], 1);
    cs.insert_at(Position::Tail, a);
    cs.insert_at(Position::Tail, b);
    assert_eq!(cs.clients("1"), vec![a, b]);
    // A newly mapped window first enters at the focus.
    cs.insert_at(Position::Focus, w);
    assert_eq!(cs.clients("1"), vec![w, a, b]);
    manage_place_at_tail(w, &mut cs);
    assert_eq!(cs.clients("1"), vec![a, b, w]);
    assert_eq!(cs.current_client(), Some(w));
    assert_eq!(cs.current_tag(), "1");
}

#[test]
fn place_at_tail_of_an_unknown_window_changes_nothing() {
    let mut cs = client_set(&["1", "2"], 1);
    cs.insert_at(Position::Tail, 1);
    cs.insert_at(Position::Tail, 2);
    manage_place_at_tail(9, &mut cs);
    assert_eq!(cs.clients("1"), vec![1, 2]);
    assert_eq!(cs.current_client(), Some(1));
}

#[test]
fn place_at_tail_of_the_only_window() {
    let mut cs = client_set(&["1"], 1);
    cs.insert_at(Position::Focus, 7);
    manage_place_at_tail(7, &mut cs);
    assert_eq!(cs.clients("1"), vec![7]);
    assert_eq!(cs.current_client(), Some(7));
}

#[test]
fn place_at_tail_pulls_a_window_from_another_tag() {
    let mut cs = client_set(&["1", "2", "3"], 2);
    cs.insert_at(Position::Tail, 1);
    cs.insert_at(Position::Tail, 2);
    cs.focus_tag("3");
    cs.insert_at(Position::Tail, 5);
    cs.insert_at(Position::Tail, 6);
    manage_place_at_tail(1, &mut cs);
    assert_eq!(cs.current_tag(), "3");
    assert_eq!(cs.clients("3"), vec![5, 6, 1]);
    assert_eq!(cs.current_client(), Some(1));
    assert_eq!(cs.clients("1"), vec![2]);
    assert_eq!(cs.focused("1"), Some(2));
    assert_eq!(cs.visible_tags(), vec!["3".to_string(), "2".to_string()]);
}

#[test]
fn place_at_tail_twice_is_the_same_as_once() {
    let mut cs = client_set(&["1"], 1);
    for id in [1, 2, 3] {
        cs.insert_at(Position::Tail, id);
    }
    manage_place_at_tail(2, &mut cs);
    assert_eq!(cs.clients("1"), vec![1, 3, 2]);
    manage_place_at_tail(2, &mut cs);
    assert_eq!(cs.clients("1"), vec![1, 3, 2]);
    assert_eq!(cs.current_client(), Some(2));
}
