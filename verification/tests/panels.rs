use wireguard_manager::tui::layout::Panel;
use wireguard_manager::tui::panels::{char_chunks, wrapped_line_count};

#[test]
fn char_chunks_shorter_than_width() {
    let chunks: Vec<String> = char_chunks("abc", 10);
    assert_eq!(chunks, vec!["abc"]);
}

#[test]
fn char_chunks_exact_width() {
    let chunks: Vec<String> = char_chunks("abcde", 5);
    assert_eq!(chunks, vec!["abcde"]);
}

#[test]
fn char_chunks_needs_splitting() {
    let chunks: Vec<String> = char_chunks("abcdefgh", 3);
    assert_eq!(chunks, vec!["abc", "def", "gh"]);
}

#[test]
fn char_chunks_empty_string() {
    let chunks: Vec<String> = char_chunks("", 5);
    assert!(chunks.is_empty());
}

#[test]
fn char_chunks_counts_characters_not_bytes() {
    let chunks: Vec<String> = char_chunks("你好世界吗", 2);
    assert_eq!(chunks, vec!["你好", "世界", "吗"]);
}

#[test]
fn wrapped_short_line_no_wrap() {
    assert_eq!(wrapped_line_count(&[5], 20), 1);
}

#[test]
fn wrapped_exact_width() {
    assert_eq!(wrapped_line_count(&[5], 5), 1);
}

#[test]
fn wrapped_needs_wrapping() {
    // 10 columns at width 4: ceil(10/4) = 3
    assert_eq!(wrapped_line_count(&[10], 4), 3);
}

#[test]
fn wrapped_empty_line_counts_as_one() {
    assert_eq!(wrapped_line_count(&[0], 10), 1);
}

#[test]
fn wrapped_zero_width_falls_back_to_line_count() {
    assert_eq!(wrapped_line_count(&[3, 3], 0), 2);
}

#[test]
fn wrapped_multi_line_mixed() {
    // 5 columns at width 3 -> 2, empty -> 1, 10 columns at width 3 -> 4
    assert_eq!(wrapped_line_count(&[5, 0, 10], 3), 7);
}

#[test]
fn wrapped_total_saturates() {
    assert_eq!(wrapped_line_count(&[usize::MAX, usize::MAX], 1), u16::MAX);
}

#[test]
fn panel_next_cycles_through_all_panels() {
    let p = Panel::OverallInfo;
    assert_eq!(p.next(), Panel::DeviceList);
    assert_eq!(p.next().next(), Panel::ConfigPreview);
    assert_eq!(p.next().next().next(), Panel::OverallInfo);
}

#[test]
fn panel_prev_cycles_in_reverse() {
    let p = Panel::OverallInfo;
    assert_eq!(p.prev(), Panel::ConfigPreview);
    assert_eq!(p.prev().prev(), Panel::DeviceList);
    assert_eq!(p.prev().prev().prev(), Panel::OverallInfo);
}

#[test]
fn panel_prev_undoes_next() {
    for p in [Panel::OverallInfo, Panel::DeviceList, Panel::ConfigPreview] {
        assert_eq!(p.next().prev(), p);
        assert_eq!(p.prev().next(), p);
    }
}

#[test]
fn char_chunks_empty_string_without_width() {
    let chunks: Vec<String> = char_chunks("", 0);
    assert!(chunks.is_empty());
}
