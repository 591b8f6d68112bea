use tui_watcher::notify::{notification_body, notification_subject};
use tui_watcher::store::price_file_path;

#[test]
fn notification_names_both_values() {
    assert_eq!(
        notification_body("100", "150"),
        "The price has changed from 100 to 150!"
    );
}

#[test]
fn notification_subject_is_fixed() {
    assert_eq!(notification_subject(), "The price has changed");
}

#[test]
fn price_file_lies_under_the_home_directory() {
    assert_eq!(
        price_file_path("/home/someone"),
        "/home/someone/tui-watcher-last-price.txt"
    );
}
