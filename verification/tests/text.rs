use forge::text::{line_count, line_length_at};

#[test]
fn counts_lines_as_str_lines_does() {
    for content in ["", "a", "a\n", "a\nb", "a\n\nb\n", "\n", "\r\n", "x\r\ny\r"] {
        assert_eq!(line_count(content), content.lines().count(), "{content:?}");
    }
}

#[test]
fn measures_lines_as_str_lines_does() {
    for content in ["", "abc", "abc\n", "ab\r\ncd", "ab\rcd\n", "é\nüü\n\nlast", "\r"] {
        for n in 0..6 {
            let expected = content.lines().nth(n).map(|l| l.chars().count()).unwrap_or(0);
            assert_eq!(line_length_at(content, n), expected, "{content:?} line {n}");
        }
    }
}

fn shown_by_iterators(content: &str, scroll_x: usize, scroll_y: usize, width: usize, height: usize) -> String {
    content
        .lines()
        .skip(scroll_y)
        .take(height)
        .map(|line| line.chars().skip(scroll_x).take(width).collect::<String>())
        .collect::<Vec<_>>()
        .join("\n")
}

#[test]
fn shows_the_window_of_the_text() {
    assert_eq!(forge::text::visible_text("abcdef\nghijkl\nmnop", 1, 1, 3, 2), "hij\nnop");
    let contents = ["", "one", "one\ntwo\r\nthree\n", "é€x\n\nyz", "a\rb\nc"];
    for content in contents {
        for (sx, sy, w, h) in [(0, 0, 80, 24), (1, 0, 2, 1), (0, 1, 5, 5), (3, 2, 1, 9), (0, 9, 4, 4), (0, 0, 0, 3)] {
            assert_eq!(
                forge::text::visible_text(content, sx, sy, w, h),
                shown_by_iterators(content, sx, sy, w, h),
                "{content:?} {sx} {sy} {w} {h}"
            );
        }
    }
}
