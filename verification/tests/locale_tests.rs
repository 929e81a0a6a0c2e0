use bution::cluster::{NodeRole, NodeStatus};
use bution::locale::Language;

#[test]
fn recognizes_russian_language_independent_of_region() {
    for locale in ["ru", "ru-RU", "ru-KZ", "RU_ru.UTF-8", "ru_RU@variant"] {
        assert_eq!(Language::from_locale(Some(locale)), Language::Russian);
    }
}

#[test]
fn english_and_unsupported_languages_fall_back_to_english() {
    for locale in [None, Some(""), Some("en-RU"), Some("en-US"), Some("de-DE"), Some("C.UTF-8")] {
        assert_eq!(Language::from_locale(locale), Language::English);
    }
}

#[test]
fn labels_follow_the_language() {
    assert_eq!(Language::English.text("quit", "выход"), "quit");
    assert_eq!(Language::Russian.text("quit", "выход"), "выход");
    assert_ne!(Language::English.role(NodeRole::Main), Language::Russian.role(NodeRole::Main));
    assert_ne!(Language::English.node_status(NodeStatus::Ready), "");
}
