use lightspeed::markdown::{find_delim, heading_text, list_item_text, push_inline, render};
use lightspeed::rich::RichText;

#[test]
fn a_heading_loses_its_hashes_but_keeps_its_text() {
    let rich = render("# Title\n\nBody");
    assert_eq!(rich.text(), "Title\n\nBody");
}

#[test]
fn a_heading_up_to_level_six_is_recognised() {
    assert_eq!(heading_text("###### Deep"), Some("Deep"));
    assert_eq!(heading_text("####### Too deep"), None);
}

#[test]
fn a_hash_with_no_space_after_it_is_not_a_heading() {
    assert_eq!(heading_text("#hashtag"), None);
}

#[test]
fn bold_and_italic_markers_are_stripped_from_the_text() {
    let rich = render("**bold** and *italic* and _also italic_");
    assert_eq!(rich.text(), "bold and italic and also italic");
}

#[test]
fn inline_code_markers_are_stripped() {
    let rich = render("call `foo()` now");
    assert_eq!(rich.text(), "call foo() now");
}

#[test]
fn a_link_keeps_only_its_visible_text() {
    let rich = render("see [the docs](https://example.com/docs) for more");
    assert_eq!(rich.text(), "see the docs for more");
}

#[test]
fn list_markers_become_a_bullet() {
    let rich = render("- first\n* second\n1. third\n2) fourth");
    assert_eq!(rich.text(), "\u{2022} first\n\u{2022} second\n\u{2022} third\n\u{2022} fourth");
}

#[test]
fn an_unclosed_delimiter_is_left_as_plain_text_rather_than_eating_the_rest_of_the_line() {
    let rich = render("this *never closes");
    assert_eq!(rich.text(), "this *never closes");
}

#[test]
fn two_asterisks_that_never_close_are_left_as_plain_text() {
    assert_eq!(render("**never closes").text(), "**never closes");
    assert_eq!(render("this **never closes").text(), "this **never closes");
    assert_eq!(render("`never closes").text(), "`never closes");
    assert_eq!(render("_never closes").text(), "_never closes");
    assert_eq!(render("**a *b* c").text(), "**a b c", "neither of the two opens anything");
    assert_eq!(render("*a* **b *c*").text(), "a **b c");
    assert_eq!(render("***a*").text(), "**a", "the third is not one of the two");
    assert_eq!(render("**b***a*").text(), "ba", "nor is one behind two that close");
    assert_eq!(render("** **").text(), " ");
}

#[test]
fn a_heading_has_something_after_its_space() {
    assert_eq!(heading_text("# "), None);
    assert_eq!(heading_text("###### "), None);
    assert_eq!(heading_text("#"), None);
    assert_eq!(heading_text("# x"), Some("x"));
    assert_eq!(render("# \nbody").text(), "# \nbody");
}

#[test]
fn a_fenced_code_block_is_shown_without_its_fence_markers() {
    let rich = render("```rust\nfn main() {}\n```");
    assert_eq!(rich.text(), "\nfn main() {}\n");
}

#[test]
fn code_inside_a_fence_is_not_inline_parsed() {
    let rich = render("```\n**not bold**\n```");
    assert_eq!(rich.text(), "\n**not bold**\n");
}

#[test]
fn an_empty_document_renders_as_empty() {
    assert_eq!(render("").text(), "");
    assert!(render("").is_empty());
}

#[test]
fn list_items_are_told_from_prose() {
    assert_eq!(list_item_text("- one"), Some("one"));
    assert_eq!(list_item_text("12. twelve"), Some("twelve"));
    assert_eq!(list_item_text("-one"), None);
    assert_eq!(list_item_text("12 twelve"), None);
}

#[test]
fn a_delimiter_is_found_where_it_first_stands() {
    let chars: Vec<char> = "a**b**".chars().collect();
    assert_eq!(find_delim(&chars, 0, "**"), Some(1));
    assert_eq!(find_delim(&chars, 2, "**"), Some(4));
    assert_eq!(find_delim(&chars, 5, "**"), None);
    assert_eq!(find_delim(&chars, 6, "**"), None);
    assert_eq!(find_delim(&chars, 7, "*"), None, "past the end");
    assert_eq!(find_delim(&chars, usize::MAX, "*"), None);
    assert_eq!(find_delim(&Vec::new(), 1, "*"), None);
}

#[test]
fn inline_text_without_markers_is_untouched() {
    let mut rich = RichText::new();
    push_inline(&mut rich, "nothing to see here");
    assert_eq!(rich.text(), "nothing to see here");
    assert_eq!(rich.runs.len(), 1);
}
