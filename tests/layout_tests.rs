use ratatoskr::layout::{organize_rows, pack_row, INLINE_ROW_BUDGET, REPLY_ROW_BUDGET};
use ratatoskr::outgoing::{ButtonInfo, ReplyKeyboardButton, ReplyKeyboardMarkup};
use ratatoskr::dispatch::organize_reply_keyboard;

fn b(text: &str) -> ButtonInfo {
    ButtonInfo { text: text.to_string(), callback_data: format!("cb_{}", text) }
}

fn labels(rows: &[Vec<ButtonInfo>]) -> Vec<Vec<String>> {
    rows.iter().map(|r| r.iter().map(|x| x.text.clone()).collect()).collect()
}

#[test]
fn four_short_buttons_share_one_row() {
    let rows = pack_row(vec![b("a"), b("b"), b("c"), b("d")], INLINE_ROW_BUDGET);
    assert_eq!(labels(&rows), vec![vec!["a", "b", "c", "d"]]);
}

#[test]
fn buttons_over_budget_split_rows() {
    let rows = ButtonInfo::create_inline_keyboard(vec![b("Exactly26Characters Here"), b("OneMore")]);
    assert_eq!(labels(&rows), vec![vec!["Exactly26Characters Here"], vec!["OneMore"]]);
}

#[test]
fn oversized_button_gets_own_row() {
    let long = "x".repeat(30);
    let rows = pack_row(vec![b("ab"), b(&long), b("cd"), b("ef")], INLINE_ROW_BUDGET);
    assert_eq!(labels(&rows), vec![vec!["ab".to_string()], vec![long.clone()], vec!["cd".to_string(), "ef".to_string()]]);
    let total: usize = rows.iter().map(|r| r.len()).sum();
    assert_eq!(total, 4);
    assert_eq!(rows[1][0].callback_data, format!("cb_{}", long));
}

#[test]
fn exact_budget_fits() {
    let rows = pack_row(vec![b("1234567890"), b("1234567890"), b("123456"), b("x")], INLINE_ROW_BUDGET);
    assert_eq!(rows.iter().map(|r| r.len()).collect::<Vec<_>>(), vec![3, 1]);
    assert!(pack_row(Vec::<ButtonInfo>::new(), INLINE_ROW_BUDGET).is_empty());
}

#[test]
fn auto_layout_only_for_single_multi_button_row() {
    let packed = organize_rows(vec![vec![b("one"), b("two")]], INLINE_ROW_BUDGET);
    assert_eq!(labels(&packed), vec![vec!["one", "two"]]);
    let narrow = organize_rows(vec![vec![b("one"), b("two")]], 4);
    assert_eq!(labels(&narrow), vec![vec!["one"], vec!["two"]]);
    let given = organize_rows(vec![vec![b("one")], vec![b("two")]], 100);
    assert_eq!(labels(&given), vec![vec!["one"], vec!["two"]]);
    let single = organize_rows(vec![vec![b(&"y".repeat(40))]], 4);
    assert_eq!(single.len(), 1);
}

#[test]
fn reply_keyboard_packs_under_its_budget() {
    let kb = ReplyKeyboardMarkup::new(vec![vec![
        ReplyKeyboardButton::new_text("123456789012".to_string()),
        ReplyKeyboardButton::new_location("12345678".to_string()),
        ReplyKeyboardButton::new_contact("x".to_string()),
    ]])
    .one_time();
    let kb = organize_reply_keyboard(kb);
    assert_eq!(REPLY_ROW_BUDGET, 20);
    assert_eq!(kb.keyboard.iter().map(|r| r.len()).collect::<Vec<_>>(), vec![2, 1]);
    assert_eq!(kb.one_time_keyboard, Some(true));
    assert_eq!(kb.resize_keyboard, Some(true));
    assert_eq!(kb.keyboard[0][1].request_location, Some(true));
}

#[test]
fn keyboard_builders_set_their_fields() {
    let p = ReplyKeyboardButton::new_poll("poll".to_string(), Some("quiz".to_string()));
    assert_eq!(p.request_poll.unwrap().poll_type, Some("quiz".to_string()));
    let w = ReplyKeyboardButton::new_web_app("app".to_string(), "https://example.org".to_string());
    assert_eq!(w.web_app.unwrap().url, "https://example.org");
    let c = ReplyKeyboardButton::new_contact("c".to_string());
    assert_eq!(c.request_contact, Some(true));
    assert!(c.request_location.is_none());
    let k = ReplyKeyboardMarkup::new(vec![])
        .persistent()
        .with_placeholder("type".to_string())
        .selective();
    assert_eq!(k.is_persistent, Some(true));
    assert_eq!(k.input_field_placeholder, Some("type".to_string()));
    assert_eq!(k.selective, Some(true));
    assert!(k.one_time_keyboard.is_none());
}
