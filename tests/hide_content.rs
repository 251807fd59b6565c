use mdbook::book::{Book, BookItem, Chapter};
use mdbook::preprocess::PreprocessorContext;
use mdbook_hide_content::assets::{SCRIPT_BLOCK, STYLE_BLOCK, WIDGET_HEAD, WIDGET_TAIL};
use mdbook_hide_content::blocks::{process_chapter, replace_blocks};
use mdbook_hide_content::HideContent;

fn assets() -> String {
    format!("{}\n{}\n", STYLE_BLOCK, SCRIPT_BLOCK)
}

fn widget(body: &str) -> String {
    format!("{}{}{}", WIDGET_HEAD, body, WIDGET_TAIL)
}

#[test]
fn scenario_question_with_trailing_paragraph() {
    let input = "What is 2+2?\n@@@\nIt is 4.\n@@@\nUnrelated trailing paragraph.";
    let out = process_chapter(input);
    let expected = format!(
        "{}What is 2+2?{}\nUnrelated trailing paragraph.",
        assets(),
        widget("It is 4.")
    );
    assert_eq!(out, expected);
    assert!(out.contains("<span class=\"toggle-text\">显示答案</span>"));
    assert!(out.contains("<div class=\"hidden-content\">\n\nIt is 4.\n\n</div>\n</div>"));
    assert!(out.ends_with("</div>\n</div>\nUnrelated trailing paragraph."));
}

#[test]
fn content_without_sentinel_gets_only_assets() {
    let input = "# Title\n\nJust text, with an @ sign and @@ twice.\n";
    assert_eq!(process_chapter(input), format!("{}{}", assets(), input));
}

#[test]
fn empty_content_gets_only_assets() {
    assert_eq!(process_chapter(""), assets());
}

#[test]
fn assets_order_is_style_then_script() {
    let out = process_chapter("x");
    assert!(out.starts_with("\n<style>\n"));
    let style_end = out.find("</style>").unwrap();
    let script_start = out.find("<script>").unwrap();
    assert!(style_end < script_start);
    assert!(out.ends_with("</script>\n\nx"));
}

#[test]
fn unterminated_block_is_left_alone() {
    let input = "Question?\n@@@\nAnswer without an end.\n";
    assert_eq!(process_chapter(input), format!("{}{}", assets(), input));
}

#[test]
fn block_round_trip_keeps_title_and_body() {
    let title = "Which **bold** title?";
    let body = "Body with <em>markup</em>\nand a second line";
    let input = format!("{}\n@@@\n{}\n@@@", title, body);
    assert_eq!(replace_blocks(&input), format!("{}{}", title, widget(body)));
}

#[test]
fn leftmost_first_pairs_first_two_sentinels() {
    let input = "Title\n@@@\nx\n@@@\ny\n@@@";
    assert_eq!(replace_blocks(input), format!("Title{}\ny\n@@@", widget("x")));
}

#[test]
fn text_before_and_after_blocks_is_kept() {
    let input = "intro line\nQ1\n@@@\nA1\n@@@\nmiddle\nQ2\n@@@\nA2\n@@@\n\noutro @@ line\n";
    let expected = format!(
        "intro line\nQ1{}\nmiddle\nQ2{}\n\noutro @@ line\n",
        widget("A1"),
        widget("A2")
    );
    assert_eq!(replace_blocks(input), expected);
}

#[test]
fn empty_body_needs_blank_line() {
    assert_eq!(replace_blocks("Q\n@@@\n\n@@@"), format!("Q{}", widget("")));
    assert_eq!(replace_blocks("Q\n@@@\n@@@"), "Q\n@@@\n@@@");
}

#[test]
fn closing_sentinel_must_end_its_line() {
    let input = "Q\n@@@\nA\n@@@ trailing\nmore";
    assert_eq!(replace_blocks(input), input);
    let input2 = "Q\n@@@\nA\n@@@ trailing\nB\n@@@";
    assert_eq!(replace_blocks(input2), format!("Q{}", widget("A\n@@@ trailing\nB")));
}

#[test]
fn opening_sentinel_must_be_its_own_line() {
    let input = "Q\n@@@x\nA\n@@@";
    assert_eq!(replace_blocks(input), input);
}

#[test]
fn block_at_start_of_content_joins_the_assets() {
    let out = process_chapter("@@@\nA\n@@@");
    let a = assets();
    let expected = format!("{}{}", &a[..a.len() - 1], widget("A"));
    assert_eq!(out, expected);
}

#[test]
fn non_ascii_text_is_kept() {
    let input = "问题？\n@@@\n答案：四。\n@@@\n结束";
    assert_eq!(replace_blocks(input), format!("问题？{}\n结束", widget("答案：四。")));
}

#[test]
fn name_is_hide_content() {
    assert_eq!(HideContent::new().name(), "hide-content");
}

#[test]
fn run_processes_every_chapter_nested_ones_too() {
    let ctx = context();
    let inner = Chapter::new("Inner", "Q\n@@@\nA\n@@@".to_string(), "inner.md", vec![]);
    let mut outer = Chapter::new("Outer", "plain".to_string(), "outer.md", vec![]);
    outer.sub_items.push(BookItem::Chapter(inner));
    let mut book = Book::new();
    book.push_item(outer);
    book.push_item(BookItem::Separator);
    let out = HideContent::new().run(&ctx, book).unwrap();
    let mut contents: Vec<String> = Vec::new();
    for item in out.iter() {
        if let BookItem::Chapter(ch) = item {
            contents.push(ch.content.clone());
        }
    }
    assert_eq!(contents.len(), 2);
    assert_eq!(contents[0], format!("{}plain", assets()));
    assert_eq!(contents[1], format!("{}Q{}", assets(), widget("A")));
}

fn context() -> PreprocessorContext {
    serde_json::from_str(
        "{\"root\":\"/tmp\",\"config\":{},\"renderer\":\"html\",\"mdbook_version\":\"0.4.52\"}",
    )
    .unwrap()
}

#[test]
fn run_leaves_a_book_without_chapters_unchanged() {
    let mut book = Book::new();
    book.push_item(BookItem::PartTitle("Part one".to_string()));
    book.push_item(BookItem::Separator);
    let out = HideContent::new().run(&context(), book.clone()).unwrap();
    assert_eq!(out, book);
}

#[test]
fn run_keeps_other_chapter_fields() {
    let mut book = Book::new();
    book.push_item(Chapter::new("A", String::new(), "a.md", vec!["Top".to_string()]));
    let out = HideContent::new().run(&context(), book.clone()).unwrap();
    assert_eq!(out.sections.len(), 1);
    match (&out.sections[0], &book.sections[0]) {
        (BookItem::Chapter(after), BookItem::Chapter(before)) => {
            assert_eq!(after.content, assets());
            assert_eq!(after.name, before.name);
            assert_eq!(after.number, before.number);
            assert_eq!(after.path, before.path);
            assert_eq!(after.source_path, before.source_path);
            assert_eq!(after.parent_names, before.parent_names);
            assert_eq!(after.sub_items, before.sub_items);
        }
        _ => panic!("the chapter is gone"),
    }
}
