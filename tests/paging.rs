use histpick::paging::{advance_down, advance_up, clamp, total_pages, visible_range, visible_slice, Cursor};

#[test]
fn page_counts() {
    assert_eq!(total_pages(0, 3), 0);
    assert_eq!(total_pages(1, 3), 1);
    assert_eq!(total_pages(3, 3), 1);
    assert_eq!(total_pages(5, 3), 2);
    assert_eq!(total_pages(6, 3), 2);
    assert_eq!(total_pages(7, 3), 3);
}

#[test]
fn page_ranges_are_clamped() {
    assert_eq!(visible_range(5, 0, 3), (0, 3));
    assert_eq!(visible_range(5, 1, 3), (3, 5));
    assert_eq!(visible_range(5, 2, 3), (5, 5));
    assert_eq!(visible_range(2, 0, 3), (0, 2));
    assert_eq!(visible_range(0, 0, 3), (0, 0));
    assert_eq!(visible_range(usize::MAX, usize::MAX, 2), (usize::MAX, usize::MAX));
}

#[test]
fn page_lengths_add_up() {
    for n in 0..20usize {
        for cap in 1..6usize {
            let pages = total_pages(n, cap);
            let mut sum = 0;
            for p in 0..pages {
                let (s, e) = visible_range(n, p, cap);
                assert!(e - s <= cap);
                assert!(e > s);
                if p + 1 < pages {
                    assert_eq!(e - s, cap);
                }
                sum += e - s;
            }
            assert_eq!(sum, n);
        }
    }
}

#[test]
fn slices_of_pages() {
    let m: Vec<String> = ["a", "b", "c", "d", "e"].iter().map(|s| s.to_string()).collect();
    assert_eq!(visible_slice(&m, 0, 3), vec!["a".to_string(), "b".to_string(), "c".to_string()]);
    assert_eq!(visible_slice(&m, 1, 3), vec!["d".to_string(), "e".to_string()]);
    assert!(visible_slice(&m, 2, 3).is_empty());
}

#[test]
fn down_at_last_position_holds() {
    let c = Cursor { page: 1, index: 1 };
    assert_eq!(advance_down(c, 3, 5), c);
    assert_eq!(advance_down(Cursor { page: 0, index: 2 }, 3, 5), Cursor { page: 1, index: 0 });
    assert_eq!(advance_down(Cursor { page: 0, index: 0 }, 3, 5), Cursor { page: 0, index: 1 });
    assert_eq!(advance_down(Cursor { page: 0, index: 0 }, 3, 0), Cursor { page: 0, index: 0 });
}

#[test]
fn up_moves_to_previous_page() {
    assert_eq!(advance_up(Cursor { page: 1, index: 0 }, 3, 5), Cursor { page: 0, index: 2 });
    assert_eq!(advance_up(Cursor { page: 1, index: 1 }, 3, 5), Cursor { page: 1, index: 0 });
    assert_eq!(advance_up(Cursor { page: 0, index: 0 }, 3, 5), Cursor { page: 0, index: 0 });
}

#[test]
fn out_of_range_request_is_clamped() {
    assert_eq!(clamp(1, 2, 3, 5), Cursor { page: 1, index: 1 });
    assert_eq!(clamp(1, 1, 3, 5), Cursor { page: 1, index: 1 });
    assert_eq!(clamp(0, 7, 3, 5), Cursor { page: 1, index: 1 });
    assert_eq!(clamp(9, 0, 3, 5), Cursor { page: 1, index: 1 });
    assert_eq!(clamp(2, 2, 3, 0), Cursor { page: 0, index: 0 });
    assert_eq!(clamp(0, 1, 3, 5), Cursor { page: 0, index: 1 });
}

#[test]
fn cursor_start_is_origin() {
    assert_eq!(Cursor::start(), Cursor { page: 0, index: 0 });
}
