use std::collections::HashSet;

use imgdedupe::keep::{as_keep, keeps, marked, unmarked, Keep};
use imgdedupe::pairs::Pairs;
use imgdedupe::plan::{build_plan, is_ignored};
use imgdedupe::review::Review;
use imgdedupe::sets::{pair, pairs_of, DuplicateSet, Member};
use imgdedupe::state::{step, Direction};

fn picture(file_id: i64, best: bool) -> Member {
    Member {
        file_id,
        rel_path: format!("{file_id}.png"),
        width: 640,
        height: 480,
        format: String::from("png"),
        size_bytes: 1000 * file_id,
        mtime_seconds: 0,
        auto_keep: best,
    }
}

fn set(set_id: i64, ids: &[i64]) -> DuplicateSet {
    DuplicateSet {
        set_id,
        members: ids
            .iter()
            .enumerate()
            .map(|(at, id)| picture(*id, at == 0))
            .collect(),
    }
}

fn review(sets: Vec<DuplicateSet>) -> Review {
    let mut review = Review::empty();
    review.sets = sets;
    review.replan();
    review
}

fn going(review: &Review) -> Vec<i64> {
    review.plan.removals.iter().map(|removal| removal.file_id).collect()
}

fn marks(review: &Review, set_id: i64) -> Vec<i64> {
    review.keep.get(&set_id).map(|keep| keep.marked()).unwrap_or_default()
}

#[test]
fn marks_are_one_several_or_no_entry() {
    assert!(as_keep(Vec::new()).is_none());
    assert!(matches!(as_keep(vec![4]), Some(Keep::One(4))));
    assert!(matches!(as_keep(vec![4, 5]), Some(Keep::Several(ids)) if ids == [4, 5]));
    assert!(matches!(as_keep(vec![4, 4]), Some(Keep::One(4))));
    assert!(matches!(as_keep(vec![4, 4, 5]), Some(Keep::Several(ids)) if ids == [4, 4, 5]));
}

#[test]
fn a_picture_marked_again_is_marked_once() {
    assert!(matches!(marked(Some(&Keep::One(7)), 7), Some(Keep::One(7))));
    let two = Keep::Several(vec![7, 9]);
    assert_eq!(marked(Some(&two), 9).unwrap().marked(), [7, 9]);
}

#[test]
fn a_mark_goes_on_and_comes_off() {
    let one = marked(None, 7).unwrap();
    assert!(matches!(one, Keep::One(7)));
    let two = marked(Some(&one), 9).unwrap();
    assert_eq!(two.marked(), [7, 9]);
    assert!(two.keeps(9) && !two.keeps(8));
    assert!(keeps(Some(&two), 7) && !keeps(None, 7));
    let back = unmarked(Some(&two), 9).unwrap();
    assert!(matches!(back, Keep::One(7)));
    assert!(unmarked(Some(&back), 7).is_none());
}

#[test]
fn a_pair_has_the_lower_id_first() {
    assert_eq!(pair(9, 4), (4, 9));
    assert_eq!(pair(4, 9), (4, 9));
    assert_eq!(pairs_of(&set(1, &[3, 1, 2])), [(1, 3), (2, 3), (1, 2)]);
}

#[test]
fn a_set_is_ignored_when_every_pair_of_it_is() {
    let three = set(1, &[1, 2, 3]);
    let mut ignored = Pairs::new();
    ignored.extend(&vec![(1, 2), (1, 3)]);
    assert!(!is_ignored(&three, &ignored));
    ignored.insert((2, 3));
    assert!(is_ignored(&three, &ignored));
    ignored.remove((1, 2));
    assert!(!is_ignored(&three, &ignored));
    assert!(!is_ignored(&set(2, &[8]), &ignored));
    ignored.clear();
    assert!(!ignored.contains((1, 3)));
}

#[test]
fn what_is_marked_is_kept_and_the_rest_of_that_set_goes() {
    let mut review = review(vec![set(1, &[1, 2, 3]), set(2, &[4, 5])]);
    assert_eq!(review.plan.files(), 0);
    review.selected = Some(2);
    assert_eq!(review.keep_selected(), Some((2, false)));
    assert_eq!(going(&review), [1, 3]);
    assert_eq!(review.plan.bytes(), 4000);
    let again = build_plan(&review.sets, &review.keep, &review.ignored);
    assert_eq!(again.files(), 2);
    // Marked again it comes off, and a set marked with nothing loses nothing.
    assert_eq!(review.keep_selected(), Some((2, true)));
    assert_eq!(review.plan.files(), 0);
}

#[test]
fn marking_alone_takes_the_others_off() {
    let mut review = review(vec![set(1, &[1, 2, 3])]);
    review.selected = Some(1);
    review.keep_selected();
    review.selected = Some(3);
    review.keep_selected();
    assert_eq!(marks(&review, 1), [1, 3]);
    let (came_off, kept) = review.keep_only_selected().unwrap();
    assert_eq!((came_off, kept), (vec![1], 3));
    assert_eq!(marks(&review, 1), [3]);
    assert_eq!(review.keep_this_one(1, 2), [3]);
    assert_eq!(going(&review), [1, 3]);
}

#[test]
fn an_ignored_set_keeps_its_marks_and_loses_nothing() {
    let mut review = review(vec![set(1, &[1, 2, 3]), set(2, &[4, 5])]);
    review.selected = Some(2);
    review.keep_selected();
    let said = review.ignore_set(1).unwrap();
    assert_eq!(said, [(1, 2), (1, 3), (2, 3)]);
    assert!(going(&review).is_empty());
    assert_eq!(marks(&review, 1), [2]);
    assert_eq!(review.selected, Some(2));
    // The toggle does nothing to a set that is not one of copies.
    assert_eq!(review.keep_selected(), None);
    assert_eq!(review.unignore_set(1).unwrap().len(), 3);
    assert_eq!(going(&review), [1, 3]);
    assert!(review.ignore_set(9).is_none());
}

#[test]
fn keeping_all_or_none_of_a_set_loses_nothing() {
    let mut review = review(vec![set(1, &[1, 2, 3])]);
    review.selected = Some(2);
    review.keep_selected();
    assert_eq!(review.keep_all_of(0), [1, 3]);
    assert_eq!(marks(&review, 1), [1, 2, 3]);
    assert!(going(&review).is_empty());
    assert_eq!(review.keep_none_of(0), [1, 2, 3]);
    assert!(marks(&review, 1).is_empty());
    assert!(going(&review).is_empty());
}

#[test]
fn the_best_copies_are_marked_beside_what_is_marked() {
    let mut review = review(vec![set(1, &[1, 2]), set(2, &[4, 5]), set(3, &[6, 7])]);
    review.selected = Some(5);
    review.keep_selected();
    review.ignore_set(3);
    assert_eq!(review.auto_mark_to_keep(), [1, 4]);
    assert_eq!(marks(&review, 1), [1]);
    assert_eq!(marks(&review, 2), [5, 4]);
    assert!(marks(&review, 3).is_empty());
    assert_eq!(going(&review), [2]);
    assert!(review.auto_mark_to_keep().is_empty());
}

#[test]
fn everything_is_marked_and_unmarked_but_what_is_ignored() {
    let mut review = review(vec![set(1, &[1, 2]), set(2, &[4, 5]), set(3, &[6, 7])]);
    review.selected = Some(6);
    review.keep_selected();
    review.ignore_set(3);
    assert_eq!(review.keep_everything(), [1, 2, 4, 5]);
    assert!(going(&review).is_empty());
    let mut came_off = review.unmark_everything();
    came_off.sort_unstable();
    assert_eq!(came_off, [1, 2, 4, 5]);
    assert_eq!(marks(&review, 3), [6]);
    assert_eq!(review.keep.len(), 1);
}

#[test]
fn the_marks_of_the_last_review_go_back_on() {
    let mut review = review(vec![set(1, &[1, 2, 3]), set(2, &[4, 5])]);
    let kept: HashSet<i64> = [3, 2, 99].into_iter().collect();
    review.take_up_the_marks(&kept);
    assert_eq!(marks(&review, 1), [2, 3]);
    assert!(marks(&review, 2).is_empty());
    assert_eq!(going(&review), [1]);
}

#[test]
fn files_that_are_gone_leave_the_sets() {
    let mut review = review(vec![set(1, &[1, 2, 3]), set(2, &[4, 5])]);
    review.selected = Some(4);
    review.keep_selected();
    review.keep_this_one(1, 2);
    review.keep_all_of(0);
    review.forget_members(&vec![String::from("1.png"), String::from("5.png")]);
    assert_eq!(review.sets.len(), 1);
    assert_eq!(review.sets[0].ids(), [2, 3]);
    assert_eq!(marks(&review, 1), [2, 3]);
    assert!(!review.keep.contains_key(&2));
    assert_eq!(review.selected, None);
    // With one picture left it is not a set of copies any more.
    review.forget_members(&vec![String::from("3.png")]);
    assert!(review.sets.is_empty() && review.keep.is_empty());
}

#[test]
fn a_review_opens_on_the_first_picture_it_keeps() {
    let mut review = review(vec![set(1, &[1, 2]), set(2, &[4, 5])]);
    review.ignore_set(1);
    review.keep_this_one(2, 5);
    review.preselect_first_keeper();
    assert_eq!(review.selected, Some(5));
    review.clear();
    assert!(review.sets.is_empty() && review.selected.is_none());
}

#[test]
fn a_step_goes_on_to_the_next_set_and_stops_at_the_ends() {
    let counts = vec![2, 3];
    assert_eq!(step(&counts, (0, 0), Direction::Forward), Some((0, 1)));
    assert_eq!(step(&counts, (0, 1), Direction::Forward), Some((1, 0)));
    assert_eq!(step(&counts, (1, 2), Direction::Forward), None);
    assert_eq!(step(&counts, (1, 0), Direction::Back), Some((0, 1)));
    assert_eq!(step(&counts, (0, 0), Direction::Back), None);
    assert_eq!(step(&counts, (1, 2), Direction::PreviousSet), Some((0, 1)));
    assert_eq!(step(&counts, (0, 1), Direction::NextSet), Some((1, 1)));
    assert_eq!(step(&counts, (1, 1), Direction::NextSet), None);
    assert_eq!(step(&counts, (0, usize::MAX), Direction::NextSet), Some((1, 2)));
    assert_eq!(step(&counts, (1, usize::MAX), Direction::PreviousSet), Some((0, 1)));
    assert_eq!(step(&counts, (0, usize::MAX), Direction::Back), Some((0, usize::MAX - 1)));
}

#[test]
fn stepping_forward_visits_every_picture_once() {
    let counts = vec![2, 1, 3];
    let mut visited = vec![(0, 0)];
    while let Some(next) = step(&counts, visited[visited.len() - 1], Direction::Forward) {
        visited.push(next);
    }
    assert_eq!(visited, [(0, 0), (0, 1), (1, 0), (2, 0), (2, 1), (2, 2)]);
}

#[test]
fn the_cursor_keys_step_over_ignored_sets() {
    let mut review = review(vec![set(1, &[1, 2]), set(2, &[4, 5]), set(3, &[6, 7])]);
    review.ignore_set(2);
    let visible = vec![0, 1, 2];
    review.selected = Some(2);
    review.walk(&visible, Direction::Forward);
    assert_eq!(review.selected, Some(6));
    assert_eq!(review.scroll_to, Some(2));
    assert!(review.show_selected);
    review.walk(&visible, Direction::Back);
    assert_eq!(review.selected, Some(2));
    review.walk(&visible, Direction::NextSet);
    assert_eq!(review.selected, Some(7));
    review.walk(&visible, Direction::NextSet);
    assert_eq!(review.selected, Some(7));
    assert_eq!(review.position(&visible), Some((2, 1)));
}

#[test]
fn walking_out_of_an_ignored_set_goes_to_its_neighbours() {
    let mut review = review(vec![set(1, &[1, 2]), set(2, &[4, 5]), set(3, &[6, 7])]);
    let visible = vec![0, 1, 2];
    review.selected = Some(4);
    review.ignore_set(2);
    assert_eq!(review.selected, Some(4));
    review.walk(&visible, Direction::Back);
    assert_eq!(review.selected, Some(2));
    review.selected = Some(4);
    review.walk(&visible, Direction::Forward);
    assert_eq!(review.selected, Some(6));
    // Nowhere at all where there is no set of copies.
    review.ignore_set(1);
    review.ignore_set(3);
    review.selected = Some(4);
    review.walk(&visible, Direction::Forward);
    assert_eq!(review.selected, Some(4));
}
