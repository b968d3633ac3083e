use raytris::next_queue::NextQueue;
use raytris::tetromino::Tetromino;

fn kind_counts(draws: &[Tetromino]) -> [usize; 7] {
    let mut counts = [0usize; 7];
    for t in draws {
        let i = match t {
            Tetromino::I => 0,
            Tetromino::O => 1,
            Tetromino::T => 2,
            Tetromino::S => 3,
            Tetromino::Z => 4,
            Tetromino::J => 5,
            Tetromino::L => 6,
        };
        counts[i] += 1;
    }
    counts
}

#[test]
fn seven_draws_form_a_full_bag() {
    let mut q = NextQueue::new();
    let mut draws = Vec::new();
    for _ in 0..7 {
        draws.push(q.next_tetromino());
    }
    assert_eq!(kind_counts(&draws), [1, 1, 1, 1, 1, 1, 1]);
}

#[test]
fn aligned_windows_stay_fair_across_bag_boundaries() {
    let mut q = NextQueue::new();
    let mut draws = Vec::new();
    for _ in 0..28 {
        draws.push(q.next_tetromino());
    }
    for w in 0..4 {
        assert_eq!(kind_counts(&draws[7 * w..7 * w + 7]), [1, 1, 1, 1, 1, 1, 1]);
    }
}

#[test]
fn preview_returns_exactly_n_items() {
    let q = NextQueue::new();
    for n in 0..=5 {
        assert_eq!(q.preview(n).len(), n);
    }
}

#[test]
fn preview_matches_the_coming_draws() {
    let mut q = NextQueue::new();
    // Exercise a refill so the preview crosses a bag boundary.
    q.next_tetromino();
    q.next_tetromino();
    let ahead = q.preview(5);
    for expected in ahead {
        assert_eq!(q.next_tetromino(), expected);
    }
}

#[test]
fn peek_matches_next_draw() {
    let mut q = NextQueue::new();
    for _ in 0..10 {
        let p = q.peek();
        assert_eq!(q.next_tetromino(), p);
    }
}

#[test]
fn queue_lists_upcoming_in_draw_order() {
    let mut q = NextQueue::new();
    let listed = q.queue();
    assert!(listed.len() > 5);
    for expected in listed.into_iter().take(6) {
        assert_eq!(q.next_tetromino(), expected);
    }
}
