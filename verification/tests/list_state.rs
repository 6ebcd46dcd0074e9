use turm::list_state::ListState;

fn at(offset: usize, selected: Option<usize>) -> ListState {
    ListState { offset, selected }
}

#[test]
fn a_new_list_has_its_first_row_selected() {
    assert_eq!(ListState::new(), at(0, Some(0)));
}

#[test]
fn selecting_nothing_goes_to_the_top() {
    let mut list = at(4, Some(7));
    list.select(Some(2));
    assert_eq!(list, at(4, Some(2)));
    list.select(None);
    assert_eq!(list, at(0, None));
}

#[test]
fn the_first_row_is_selected() {
    let mut list = at(4, Some(7));
    list.select_first();
    assert_eq!(list, at(4, Some(0)));
}

#[test]
fn scrolling_stops_at_the_ends_of_the_numbers() {
    let mut list = at(4, Some(7));
    list.scroll_down_by(3);
    assert_eq!(list, at(4, Some(10)));
    list.scroll_up_by(20);
    assert_eq!(list, at(4, Some(0)));
    let mut list = at(0, Some(usize::MAX - 1));
    list.scroll_down_by(5);
    assert_eq!(list.selected, Some(usize::MAX));
}

#[test]
fn scrolling_without_a_selection_starts_at_the_first_row() {
    let mut list = at(0, None);
    list.scroll_down_by(3);
    assert_eq!(list.selected, Some(3));
    let mut list = at(0, None);
    list.scroll_up_by(3);
    assert_eq!(list.selected, Some(0));
}
