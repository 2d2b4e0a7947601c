use mdbook_llms_txt::book::{BookItem, Chapter, RenderConfig, RenderError, RenderContext};
use mdbook_llms_txt::flatten::render_llm_txt_full;
use mdbook_llms_txt::index::render_llm_txt;

fn chapter(name: &str, path: Option<&str>, content: &str, sub_items: Vec<BookItem>) -> BookItem {
    BookItem::Chapter(Chapter {
        name: name.to_string(),
        path: path.map(|p| p.to_string()),
        content: content.to_string(),
        sub_items,
    })
}

fn config(
    title: Option<&str>,
    description: Option<&str>,
    only_section: Option<&str>,
    document_root_uri: Option<&str>,
) -> RenderConfig {
    RenderConfig {
        title: title.map(|s| s.to_string()),
        description: description.map(|s| s.to_string()),
        only_section: only_section.map(|s| s.to_string()),
        document_root_uri: document_root_uri.map(|s| s.to_string()),
    }
}

/// The sample book: three top-level chapters, one with a sub-chapter.
fn simple_project(only_section: Option<&str>, document_root_uri: Option<&str>) -> RenderContext {
    RenderContext {
        sections: vec![
            chapter(
                "はじめに",
                Some("introduction.md"),
                "# はじめに\n\nmdbook のサンプルプロジェクトです。\n",
                vec![],
            ),
            chapter(
                "第1章: サンプル",
                Some("chapter_1.md"),
                "# 第1章: サンプル\n\nmdbook で使用できる基本的なMarkdown記法を紹介します。\n",
                vec![chapter(
                    "1.1 サブセクション",
                    Some("chapter_1/section_1.md"),
                    "# 1.1 サブセクション\n\nサブセクションの内容です。\n",
                    vec![],
                )],
            ),
            chapter(
                "第2章: 機能紹介",
                Some("chapter_2.md"),
                "# 第2章: 機能紹介\n\nmdbook の高度な機能を紹介します。\n",
                vec![],
            ),
        ],
        config: config(
            Some("サンプルブック"),
            Some("これはサンプルブックです。"),
            only_section,
            document_root_uri,
        ),
    }
}

/// A book nested five levels deep, with two parallel branches.
fn deep_chapter_project() -> RenderContext {
    let branch_1 = chapter(
        "1.1 節",
        Some("chapter_1/section_1.md"),
        "# 1.1 節\n\nこれは1.1節のコンテンツです。\n",
        vec![chapter(
            "1.1.1 項",
            Some("chapter_1/section_1/item_1.md"),
            "# 1.1.1 項\n\nこれは1.1.1項のコンテンツです。\n",
            vec![chapter(
                "1.1.1.1 目",
                Some("chapter_1/section_1/item_1/sub_1.md"),
                "# 1.1.1.1 目\n\nこれは1.1.1.1目のコンテンツです。\n",
                vec![chapter(
                    "1.1.1.1.1 細目",
                    Some("chapter_1/section_1/item_1/sub_1/detail_1.md"),
                    "# 1.1.1.1.1 細目\n\nこれは1.1.1.1.1細目のコンテンツです。\n",
                    vec![],
                )],
            )],
        )],
    );
    let branch_2 = chapter(
        "1.2 節",
        Some("chapter_1/section_2.md"),
        "# 1.2 節\n\nこれは1.2節のコンテンツです。\n",
        vec![chapter(
            "1.2.1 項",
            Some("chapter_1/section_2/item_1.md"),
            "# 1.2.1 項\n\nこれは1.2.1項のコンテンツです。\n",
            vec![chapter(
                "1.2.1.1 目",
                Some("chapter_1/section_2/item_1/sub_1.md"),
                "# 1.2.1.1 目\n\nこれは1.2.1.1目のコンテンツです。\n",
                vec![],
            )],
        )],
    );
    RenderContext {
        sections: vec![chapter(
            "第1章",
            Some("chapter_1.md"),
            "# 第1章\n\n深い階層のテストです。\n",
            vec![branch_1, branch_2],
        )],
        config: config(
            Some("深い階層のテストブック"),
            Some("4段以上の深い階層構造を持つテスト用のブックです。"),
            None,
            None,
        ),
    }
}

#[test]
fn test_render_llm_txt_full() {
    let ctx = simple_project(None, None);
    let output = render_llm_txt_full(&ctx).unwrap();
    assert!(output.contains("# サンプルブック"), "Check: {}", output);
    assert!(
        output.contains("> これはサンプルブックです。"),
        "Check: {}",
        output
    );
    assert!(output.contains("# はじめに"), "Check: {}", output);
}

#[test]
fn test_render_llm_txt_full_deep_chapters() {
    let ctx = deep_chapter_project();
    let output = render_llm_txt_full(&ctx).unwrap();
    assert!(
        output.contains("# 深い階層のテストブック"),
        "Check: {}",
        output
    );
    assert!(
        output.contains("> 4段以上の深い階層構造を持つテスト用のブックです。"),
        "Check: {}",
        output
    );
    assert!(output.contains("# 1.1.1.1.1 細目"), "Check: {}", output);
    assert!(
        output.contains("これは1.1.1.1.1細目のコンテンツです。"),
        "Check: {}",
        output
    );
    assert!(output.contains("# 1.2.1.1 目"), "Check: {}", output);
    assert!(
        output.contains("これは1.2.1.1目のコンテンツです。"),
        "Check: {}",
        output
    );
}

#[test]
fn mdbook_llms_txt_full_test_only_section_filter() {
    let ctx = simple_project(Some("第1章: サンプル"), None);
    let output = render_llm_txt_full(&ctx).unwrap();

    assert!(output.contains("# サンプルブック"));
    assert!(output.contains("> これはサンプルブックです。"));

    assert!(output.contains("# 第1章: サンプル"));
    assert!(output.contains("mdbook で使用できる基本的なMarkdown記法"));

    assert!(output.contains("# 1.1 サブセクション"));

    assert!(!output.contains("# はじめに"));
    assert!(!output.contains("mdbook のサンプルプロジェクトです"));
    assert!(!output.contains("# 第2章: 機能紹介"));
    assert!(!output.contains("mdbook の高度な機能"));
}

#[test]
fn simple_project_json() {
    let ctx = simple_project(None, Some("https://example.com/docs"));
    let output = render_llm_txt(&ctx).unwrap();

    let expected = "\
# サンプルブック

> これはサンプルブックです。

## はじめに

- [はじめに](https://example.com/docs/introduction.md)

## 第1章: サンプル

- [第1章: サンプル](https://example.com/docs/chapter_1.md)
- [1.1 サブセクション](https://example.com/docs/chapter_1/section_1.md)

## 第2章: 機能紹介

- [第2章: 機能紹介](https://example.com/docs/chapter_2.md)

";
    assert_eq!(output, expected);
}

#[test]
fn mdbook_llms_txt_test_only_section_filter() {
    let ctx = simple_project(Some("第1章: サンプル"), Some("https://example.com/docs"));
    let output = render_llm_txt(&ctx).unwrap();

    assert!(output.contains("# サンプルブック"));
    assert!(output.contains("> これはサンプルブックです。"));
    assert!(output.contains("## 第1章: サンプル"));
    assert!(output.contains("- [第1章: サンプル](https://example.com/docs/chapter_1.md)"));
    assert!(
        output.contains("- [1.1 サブセクション](https://example.com/docs/chapter_1/section_1.md)")
    );

    assert!(!output.contains("## はじめに"));
    assert!(!output.contains("## 第2章: 機能紹介"));
}

#[test]
fn flattener_emits_contents_in_preorder() {
    let ctx = RenderContext {
        sections: vec![
            chapter("A", None, "a", vec![chapter("B", None, "b", vec![])]),
            chapter("C", None, "c", vec![]),
        ],
        config: config(Some("T"), None, None, None),
    };
    let output = render_llm_txt_full(&ctx).unwrap();
    assert_eq!(output, "# T\n\na\n\nb\n\nc\n\n");
}

#[test]
fn flattener_keeps_separator_for_empty_content() {
    let ctx = RenderContext {
        sections: vec![chapter("A", None, "", vec![])],
        config: config(Some("T"), None, None, None),
    };
    let output = render_llm_txt_full(&ctx).unwrap();
    assert_eq!(output, "# T\n\n\n\n");
}

#[test]
fn non_chapter_items_are_skipped() {
    let ctx = RenderContext {
        sections: vec![
            BookItem::Other,
            chapter("A", Some("a.md"), "a", vec![BookItem::Other]),
            BookItem::Other,
        ],
        config: config(Some("T"), None, None, Some("https://ex")),
    };
    let full = render_llm_txt_full(&ctx).unwrap();
    assert_eq!(full, "# T\n\na\n\n");
    let index = render_llm_txt(&ctx).unwrap();
    assert_eq!(index, "# T\n\n## A\n\n- [A](https://ex/a.md)\n\n");
}

#[test]
fn index_skips_pathless_items_and_grandchildren() {
    let grandchild = chapter("C", Some("c.md"), "c", vec![]);
    let ctx = RenderContext {
        sections: vec![chapter(
            "A",
            None,
            "a",
            vec![
                chapter("B", Some("b.md"), "b", vec![grandchild]),
                chapter("D", None, "d", vec![]),
                BookItem::Other,
            ],
        )],
        config: config(Some("Book"), None, None, Some("https://ex")),
    };
    let output = render_llm_txt(&ctx).unwrap();
    assert_eq!(output, "# Book\n\n## A\n\n- [B](https://ex/b.md)\n\n");
}

#[test]
fn index_without_base_uri_uses_relative_links() {
    let ctx = simple_project(None, None);
    let output = render_llm_txt(&ctx).unwrap();
    assert!(output.contains("- [はじめに](/introduction.md)"));
    assert!(output.contains("- [1.1 サブセクション](/chapter_1/section_1.md)"));
}

#[test]
fn filter_is_exact_and_case_sensitive() {
    let ctx = RenderContext {
        sections: vec![chapter("Intro", Some("intro.md"), "hello", vec![])],
        config: config(Some("T"), Some("d"), Some("intro"), Some("https://ex")),
    };
    let full = render_llm_txt_full(&ctx).unwrap();
    assert_eq!(full, "# T\n\n> d\n\n");
    let index = render_llm_txt(&ctx).unwrap();
    assert_eq!(index, "# T\n\n> d\n\n");
}

#[test]
fn filter_picks_first_match_only() {
    let ctx = RenderContext {
        sections: vec![
            chapter("A", None, "first", vec![]),
            chapter("A", None, "second", vec![]),
        ],
        config: config(Some("T"), None, Some("A"), None),
    };
    let output = render_llm_txt_full(&ctx).unwrap();
    assert_eq!(output, "# T\n\nfirst\n\n");
}

#[test]
fn missing_title_is_fatal() {
    let ctx = RenderContext {
        sections: vec![chapter("A", Some("a.md"), "a", vec![])],
        config: config(None, Some("d"), None, Some("https://ex")),
    };
    let full = render_llm_txt_full(&ctx);
    assert_eq!(full.unwrap_err(), RenderError::MissingTitle);
    let index = render_llm_txt(&ctx);
    assert_eq!(index.unwrap_err(), RenderError::MissingTitle);
    assert_eq!(RenderError::MissingTitle.message(), "book.title is required");
}

#[test]
fn rendering_twice_gives_identical_output() {
    let ctx = simple_project(None, Some("https://example.com/docs"));
    let full_once = render_llm_txt_full(&ctx).unwrap();
    let full_twice = render_llm_txt_full(&ctx).unwrap();
    assert_eq!(full_once, full_twice);
    let index_once = render_llm_txt(&ctx).unwrap();
    let index_twice = render_llm_txt(&ctx).unwrap();
    assert_eq!(index_once, index_twice);
}
