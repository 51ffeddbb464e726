use waves_ui::comments::{comment_cell_hover, comment_cell_label, CommentPathSummary};
use waves_ui::external::compact_external_source_label;
use waves_ui::list::{move_vec_item, step_row};

#[test]
fn the_painted_badge_states_itself_for_a_reader_who_cannot_see_it() {
    assert_eq!(
        comment_cell_label(CommentPathSummary::default()),
        "Comments: none"
    );
    assert_eq!(
        comment_cell_label(CommentPathSummary {
            total: 3,
            open: 1,
            unread: 2,
        }),
        "Comments: 3, 2 unread"
    );
    assert_eq!(
        comment_cell_label(CommentPathSummary {
            total: 2,
            open: 0,
            unread: 0,
        }),
        "Comments: 2, all resolved"
    );
}

#[test]
fn an_empty_cell_says_what_a_click_would_do() {
    let hover = comment_cell_hover(CommentPathSummary::default());
    assert!(hover.contains("No comments"));
    assert!(hover.contains("Click"));
}

#[test]
fn one_comment_is_not_reported_as_one_comments() {
    let hover = comment_cell_hover(CommentPathSummary {
        total: 1,
        open: 1,
        unread: 0,
    });
    assert!(hover.starts_with("1 comment about"), "{hover}");
}

#[test]
fn unread_and_settled_are_both_said_out_loud() {
    let unread = comment_cell_hover(CommentPathSummary {
        total: 3,
        open: 3,
        unread: 2,
    });
    assert!(unread.contains("3 comments"), "{unread}");
    assert!(unread.contains("2 unread"), "{unread}");

    let settled = comment_cell_hover(CommentPathSummary {
        total: 2,
        open: 0,
        unread: 0,
    });
    assert!(settled.contains("every thread resolved"), "{settled}");
}

#[test]
fn external_source_label_compacts_long_unicode_paths_without_breaking_chars() {
    let short = r"C:\Audio\表.xlsx";
    assert_eq!(compact_external_source_label(short, 32), short);

    let long = r"C:\Users\テストユーザー\非常に長いフォルダー名\さらに長いフォルダー名\音声管理表.xlsx";
    let compact = compact_external_source_label(long, 24);
    assert!(compact.starts_with('…'));
    assert!(compact.ends_with("音声管理表.xlsx"));
    assert_eq!(compact.chars().count(), 24);
}

#[test]
fn move_vec_item_supports_both_directions_and_rejects_invalid_moves() {
    let mut values = vec!["a", "b", "c", "d"];
    assert!(move_vec_item(&mut values, 0, 2));
    assert_eq!(values, ["b", "c", "a", "d"]);
    assert!(move_vec_item(&mut values, 3, 1));
    assert_eq!(values, ["b", "d", "c", "a"]);
    assert!(!move_vec_item(&mut values, 1, 1));
}

#[test]
fn move_vec_item_rejects_moves_outside_the_list() {
    let mut values = vec![1, 2, 3];
    assert!(!move_vec_item(&mut values, 3, 0));
    assert!(!move_vec_item(&mut values, 0, 3));
    assert_eq!(values, [1, 2, 3]);
}

#[test]
fn moving_an_item_back_restores_the_list() {
    let order = vec!["kick", "snare", "hat", "tom", "crash"];
    let mut values = order.clone();
    assert!(move_vec_item(&mut values, 1, 4));
    assert_ne!(values, order);
    assert!(move_vec_item(&mut values, 4, 1));
    assert_eq!(values, order);
}

#[test]
fn comment_label_adds_only_what_applies() {
    assert_eq!(
        comment_cell_label(CommentPathSummary {
            total: 4,
            open: 2,
            unread: 0,
        }),
        "Comments: 4"
    );
    assert_eq!(
        comment_cell_label(CommentPathSummary {
            total: 2,
            open: 0,
            unread: 1,
        }),
        "Comments: 2, 1 unread, all resolved"
    );
    assert_eq!(
        comment_cell_hover(CommentPathSummary {
            total: 2,
            open: 1,
            unread: 0,
        }),
        "2 comments about this file\nClick to read, reply, or resolve."
    );
}

#[test]
fn step_row_clamps_to_the_list() {
    assert_eq!(step_row(3, 2, 10), 5);
    assert_eq!(step_row(9, 5, 10), 10);
    assert_eq!(step_row(3, -2, 10), 1);
    assert_eq!(step_row(1, -5, 10), 0);
    assert_eq!(step_row(usize::MAX - 1, 4, usize::MAX), usize::MAX);
    assert_eq!(step_row(5, isize::MIN, 10), 0);
}

#[test]
fn short_external_labels_are_kept_whole() {
    assert_eq!(compact_external_source_label("sheet.csv", 9), "sheet.csv");
    let compact = compact_external_source_label("abcdefghij", 4);
    assert_eq!(compact, "…hij");
}
