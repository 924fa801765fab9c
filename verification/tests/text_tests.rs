use call_screening::services::openai::analysis_payload;
use call_screening::text::{
    chars_of, drop_marks, drop_white_space, is_white_space, same_text, skip_marks,
    skip_white_space, stands_at,
};

#[test]
fn white_space_is_what_the_standard_says() {
    for code in 0..=0x10FFFFu32 {
        if let Some(c) = char::from_u32(code) {
            assert_eq!(is_white_space(c), c.is_whitespace(), "U+{:04X}", code);
        }
    }
}

#[test]
fn the_characters_of_a_text_come_in_order() {
    assert_eq!(chars_of("héllo"), vec!['h', 'é', 'l', 'l', 'o']);
    assert_eq!(chars_of(""), Vec::<char>::new());
}

#[test]
fn texts_are_compared_by_their_characters() {
    assert!(same_text("Accept", "Accept"));
    assert!(!same_text("Accept", "accept"));
    assert!(!same_text("Accept", "Accepted"));
    assert!(same_text("", ""));
}

#[test]
fn a_mark_is_found_where_it_stands() {
    let chars = chars_of("say ```json now");
    let mark = chars_of("```json");
    assert!(stands_at(&chars, 4, &mark));
    assert!(!stands_at(&chars, 3, &mark));
    assert!(!stands_at(&chars, 12, &mark));
    assert!(!stands_at(&chars, 99, &mark));
    assert!(stands_at(&chars, 15, &Vec::new()));
}

#[test]
fn windows_are_narrowed_from_either_end() {
    let chars = chars_of(" \t ababx  yab ab\n");
    let mark = chars_of("ab");
    let start = skip_white_space(&chars, 0, chars.len());
    assert_eq!(start, 3);
    let end = drop_white_space(&chars, start, chars.len());
    assert_eq!(end, 16);
    assert_eq!(skip_marks(&chars, start, end, &mark), 7);
    assert_eq!(drop_marks(&chars, start, end, &mark), 14);
    assert_eq!(drop_marks(&chars, 3, 7, &mark), 3);
    assert_eq!(skip_marks(&chars, 3, 6, &mark), 5);
    assert_eq!(skip_white_space(&chars, 0, 2), 2);
    assert_eq!(drop_white_space(&chars, 0, 2), 0);
    assert_eq!(skip_marks(&chars, start, end, &Vec::new()), start);
}

fn by_the_standard(content: &str) -> String {
    content.trim().trim_start_matches("```json").trim_end_matches("```").trim().to_string()
}

#[test]
fn the_payload_is_taken_out_of_its_fences() {
    assert_eq!(
        analysis_payload(Some("```json\n{\"intent\": \"sales\"}\n```".to_string())),
        "{\"intent\": \"sales\"}"
    );
    assert_eq!(analysis_payload(Some("  {\"a\": 1}  ".to_string())), "{\"a\": 1}");
    assert_eq!(analysis_payload(Some("{}".to_string())), "{}");
    assert_eq!(analysis_payload(Some(String::new())), "");
    assert_eq!(analysis_payload(None), "");
    assert_eq!(analysis_payload(Some("```json```json x ``````".to_string())), "x");
    assert_eq!(analysis_payload(Some("```json```".to_string())), "");
    assert_eq!(analysis_payload(Some("``` {} ```".to_string())), "``` {}");
}

#[test]
fn the_payload_is_what_the_standard_operations_leave() {
    let pieces = ["", " ", "\n", "\u{a0}", "```json", "```", "``", "`", "json", "{\"a\": [1]}", "é", "x"];
    let mut state: u32 = 12345;
    for _ in 0..5_000 {
        let mut content = String::new();
        for _ in 0..6 {
            state = state.wrapping_mul(1_103_515_245).wrapping_add(12_345);
            content.push_str(pieces[(state >> 16) as usize % pieces.len()]);
        }
        assert_eq!(analysis_payload(Some(content.clone())), by_the_standard(&content), "{:?}", content);
    }
}
