use excel_agent::markdown::{
    clean_text, code_content, first_code_block, opens_or_closes_block, parse_markdown_segments, remove_all,
    remove_first, segment_for, TextSegment,
};
use excel_agent::text::{chars_of, find_from, is_whitespace, slice_text, starts_with_at, trim_bounds, trimmed};

fn text(s: &str) -> TextSegment {
    TextSegment::Text(s.to_string())
}

fn code(s: &str) -> TextSegment {
    TextSegment::Code(s.to_string())
}

/// What the standard library's string functions give for the same reply.
fn segments_by_std(input: &str) -> Vec<TextSegment> {
    let mut segments = Vec::new();
    for (i, part) in input.split("```").enumerate() {
        if part.trim().is_empty() {
            continue;
        }
        if i % 2 == 0 {
            segments.push(TextSegment::Text(part.to_string()));
        } else {
            let content = if part.trim_start().starts_with("python") {
                part.replacen("python", "", 1)
            } else {
                part.to_string()
            };
            segments.push(TextSegment::Code(content.trim().to_string()));
        }
    }
    segments
}

fn clean_by_std(input: &str) -> String {
    let mut result = String::new();
    let mut in_code = false;
    for line in input.lines() {
        if line.trim().starts_with("```") {
            in_code = !in_code;
            continue;
        }
        if !in_code {
            result.push_str(line);
            result.push('\n');
        }
    }
    result.replace("下面是代码", "").replace("Here is the code", "").trim().to_string()
}

fn samples() -> Vec<&'static str> {
    vec![
        "",
        " ",
        "plain text",
        "Here is the code:\n```python\nprint(1)\n```\nDone.",
        "```python\nimport pandas as pd\n```",
        "```\nno tag\n```",
        "a```b```c```d",
        "``````",
        "````",
        "text ``` unterminated code",
        "```python```",
        "```  python print(python)```",
        "``` py\nthon```",
        "x\r\ny\r\n",
        "x\ry\n",
        "line\r",
        "\n\n\n",
        "  ```python\ncode\n  ```  \nafter",
        "下面是代码\n```python\nx = 1\n```\n好的",
        "Here is the codeHere is the code tail",
        "HereHere is the code is the code",
        "\u{3000}spaced\u{a0}\n\t```\nblock\n```\u{2028}",
        "a\n```\nb\n```\nc\n```\nd",
        "`` ` ```x``` `",
        "no newline at end ```python x```",
        "tabs\t\n```\n\tcode\n```\n",
    ]
}

#[test]
fn segments_of_a_reply_with_one_block() {
    assert_eq!(
        parse_markdown_segments("I will add a column.\n```python\nws['X1'] = 1\n```\nDone."),
        vec![text("I will add a column.\n"), code("ws['X1'] = 1"), text("\nDone.")]
    );
}

#[test]
fn segments_of_plain_text() {
    assert_eq!(parse_markdown_segments("hello"), vec![text("hello")]);
    assert!(parse_markdown_segments("").is_empty());
    assert!(parse_markdown_segments("  \n ").is_empty());
}

#[test]
fn blank_parts_are_left_out_but_still_count() {
    assert_eq!(parse_markdown_segments("```a``` ```b```"), vec![code("a"), code("b")]);
    assert_eq!(parse_markdown_segments("``````x"), vec![text("x")]);
}

#[test]
fn language_tag_is_removed_once() {
    assert_eq!(parse_markdown_segments("```python print('python')```"), vec![code("print('python')")]);
    assert_eq!(parse_markdown_segments("```ruby\nputs 1```"), vec![code("ruby\nputs 1")]);
    assert_eq!(parse_markdown_segments("```\n  python\nx```"), vec![code("x")]);
    assert_eq!(parse_markdown_segments("```x python```"), vec![code("x python")]);
}

#[test]
fn unterminated_block_runs_to_the_end() {
    assert_eq!(parse_markdown_segments("a```python\nb"), vec![text("a"), code("b")]);
}

#[test]
fn segments_agree_with_the_standard_library() {
    for sample in samples() {
        assert_eq!(parse_markdown_segments(sample), segments_by_std(sample), "on {:?}", sample);
    }
}

#[test]
fn clean_text_drops_blocks_and_announcements() {
    assert_eq!(
        clean_text("Here is the code:\n```python\nprint(1)\n```\nDone."),
        ":\nDone."
    );
    assert_eq!(clean_text("下面是代码\n```\nx\n```\n好的"), "好的");
    assert_eq!(clean_text("only prose\nsecond line\n"), "only prose\nsecond line");
    assert_eq!(clean_text(""), "");
}

#[test]
fn clean_text_handles_line_endings() {
    assert_eq!(clean_text("a\r\nb\r\n"), "a\nb");
    assert_eq!(clean_text("a\rb"), "a\rb");
    assert_eq!(clean_text("x\ny\r"), "x\ny");
}

#[test]
fn clean_text_agrees_with_the_standard_library() {
    for sample in samples() {
        assert_eq!(clean_text(sample), clean_by_std(sample), "on {:?}", sample);
    }
}

#[test]
fn helpers_agree_with_the_standard_library() {
    for sample in samples() {
        assert_eq!(trimmed(sample), sample.trim(), "on {:?}", sample);
        assert_eq!(remove_all(sample, "```"), sample.replace("```", ""), "on {:?}", sample);
        assert_eq!(remove_all(sample, "Here is the code"), sample.replace("Here is the code", ""));
        assert_eq!(remove_all(sample, ""), sample);
        assert_eq!(
            remove_first(sample, &chars_of("python")),
            sample.replacen("python", "", 1),
            "on {:?}",
            sample
        );
        assert_eq!(
            opens_or_closes_block(sample),
            sample.trim().starts_with("```"),
            "on {:?}",
            sample
        );
    }
}

#[test]
fn remove_all_is_left_to_right_without_overlap() {
    assert_eq!(remove_all("aaaa", "aa"), "");
    assert_eq!(remove_all("aaa", "aa"), "a");
    assert_eq!(remove_all("abab", "ab"), "");
    assert_eq!(remove_all("xabcabx", "ab"), "xcx");
    assert_eq!(remove_all("abc", "abcd"), "abc");
}

#[test]
fn code_content_and_segment_for() {
    assert_eq!(code_content("python\nx = 1\n"), "x = 1");
    assert_eq!(code_content("  x = 1  "), "x = 1");
    assert_eq!(code_content(" pythonic"), "ic");
    assert_eq!(segment_for("  ".to_string(), 0), None);
    assert_eq!(segment_for("  ".to_string(), 1), None);
    assert_eq!(segment_for(" a ".to_string(), 4), Some(text(" a ")));
    assert_eq!(segment_for(" a ".to_string(), 5), Some(code("a")));
}

#[test]
fn white_space_is_the_unicode_property() {
    for n in 0..=0x3100u32 {
        if let Some(c) = char::from_u32(n) {
            assert_eq!(is_whitespace(c), c.is_whitespace(), "on U+{:04X}", n);
        }
    }
    assert!(!is_whitespace('\u{feff}'));
    assert!(!is_whitespace('\u{200b}'));
}

#[test]
fn text_helpers_on_characters() {
    let chars = chars_of("héllo wörld");
    assert_eq!(chars.len(), 11);
    assert_eq!(find_from(&chars, &chars_of("l"), 0), Some(2));
    assert_eq!(find_from(&chars, &chars_of("l"), 3), Some(3));
    assert_eq!(find_from(&chars, &chars_of("l"), 4), Some(9));
    assert_eq!(find_from(&chars, &chars_of("l"), 10), None);
    assert_eq!(find_from(&chars, &chars_of("o"), 5), None);
    assert_eq!(find_from(&chars, &chars_of("ö"), 0), Some(7));
    assert_eq!(find_from(&chars, &chars_of(""), 11), Some(11));
    assert_eq!(find_from(&chars, &chars_of(""), 12), None);
    assert!(starts_with_at(&chars, &chars_of("wör"), 6));
    assert!(!starts_with_at(&chars, &chars_of("wör"), 5));
    assert!(!starts_with_at(&chars, &chars_of("ld!"), 9));
    assert_eq!(slice_text("héllo wörld", 1, 5), "éllo");
    assert_eq!(slice_text("héllo", 5, 5), "");
    assert_eq!(trim_bounds(&chars_of("  a b \n"), 0, 7), (2, 5));
    assert_eq!(trim_bounds(&chars_of("  a b \n"), 3, 7), (4, 5));
    assert_eq!(trim_bounds(&chars_of("   "), 0, 3), (3, 3));
}

#[test]
fn first_code_block_is_the_proposed_script() {
    assert_eq!(
        first_code_block("I will do it.\n```python\nx = 1\n```\nand\n```python\ny = 2\n```"),
        Some("x = 1".to_string())
    );
    assert_eq!(first_code_block("just talking"), None);
    assert_eq!(first_code_block(""), None);
    assert_eq!(first_code_block("``` ```\n```z```"), Some("z".to_string()));
    assert_eq!(first_code_block("``` ```\n z"), None);
    assert_eq!(first_code_block("a``` ```b```z```"), Some("z".to_string()));
}
