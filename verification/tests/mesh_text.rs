use pathtracer::mesh_text::read_count;
use pathtracer::mesh_text::read_layout;
use pathtracer::mesh_text::MeshError;
use pathtracer::mesh_text::Span;
use pathtracer::mesh_text::TriangleText;
use pathtracer::mesh_text::VertexText;

fn word(text: &[u8], span: Span) -> &str {
    std::str::from_utf8(&text[span.start..span.end]).unwrap()
}

fn words(text: &[u8], v: VertexText) -> [&str; 3] {
    [word(text, v.x), word(text, v.y), word(text, v.z)]
}

#[test]
fn count_is_read_from_the_first_line() {
    assert_eq!(read_count(b"2\nrest"), Some(2));
    assert_eq!(read_count(b"0"), Some(0));
    assert_eq!(read_count(b"  12 \t\r\n1 2 3\n"), Some(12));
    assert_eq!(read_count(b"+7\n"), Some(7));
    assert_eq!(read_count(b"007\n"), Some(7));
}

#[test]
fn count_takes_the_largest_word_of_the_machine() {
    let text = format!("{}\n", usize::MAX);
    assert_eq!(read_count(text.as_bytes()), Some(usize::MAX));
}

#[test]
fn count_is_refused_when_it_is_no_number() {
    assert_eq!(read_count(b""), None);
    assert_eq!(read_count(b"\n3\n"), None);
    assert_eq!(read_count(b"   \n"), None);
    assert_eq!(read_count(b"+\n"), None);
    assert_eq!(read_count(b"-1\n"), None);
    assert_eq!(read_count(b"3 4\n"), None);
    assert_eq!(read_count(b"3.0\n"), None);
    assert_eq!(read_count(b"x\n"), None);
    assert_eq!(read_count(b"++1\n"), None);
}

#[test]
fn count_is_refused_when_it_does_not_fit() {
    let text = format!("{}0\n", usize::MAX);
    assert_eq!(read_count(text.as_bytes()), None);
    assert_eq!(read_count(b"99999999999999999999999999999999\n"), None);
    let text = format!("{}\n", usize::MAX as u128 + 1);
    assert_eq!(read_count(text.as_bytes()), None);
}

#[test]
fn count_agrees_with_the_standard_parser() {
    let lines: [&str; 8] = ["5", " 5 ", "+5", "-5", "5x", "", "18446744073709551615", "18446744073709551616"];
    for line in lines {
        let expected: Option<usize> = line.trim().parse().ok();
        assert_eq!(read_count(line.as_bytes()), expected);
    }
}

#[test]
fn layout_of_one_triangle() {
    let text = b"1\n0 0 0\n1.5 0 -2\n0 1e3 0\n";
    let triangles = read_layout(text).unwrap();
    assert_eq!(triangles.len(), 1);
    let t: TriangleText = triangles[0];
    assert_eq!(words(text, t.a), ["0", "0", "0"]);
    assert_eq!(words(text, t.b), ["1.5", "0", "-2"]);
    assert_eq!(words(text, t.c), ["0", "1e3", "0"]);
    assert_eq!(t.a.x, Span { start: 2, end: 3 });
    assert_eq!(t.b.x, Span { start: 8, end: 11 });
    assert_eq!(t.c.z, Span { start: 23, end: 24 });
}

#[test]
fn layout_of_two_triangles_with_blanks_and_extra_words() {
    let text = b" 2 \r\n  1 2 3 ignored\r\n\t4\t5\t6\r\n7  8  9\r\n-1 -2 -3\n.5 .25 .125\n10 11 12";
    let triangles = read_layout(text).unwrap();
    assert_eq!(triangles.len(), 2);
    assert_eq!(words(text, triangles[0].a), ["1", "2", "3"]);
    assert_eq!(words(text, triangles[0].b), ["4", "5", "6"]);
    assert_eq!(words(text, triangles[0].c), ["7", "8", "9"]);
    assert_eq!(words(text, triangles[1].a), ["-1", "-2", "-3"]);
    assert_eq!(words(text, triangles[1].b), [".5", ".25", ".125"]);
    assert_eq!(words(text, triangles[1].c), ["10", "11", "12"]);
}

#[test]
fn layout_of_no_triangle() {
    assert_eq!(read_layout(b"0\n"), Ok(vec![]));
    assert_eq!(read_layout(b"0"), Ok(vec![]));
    assert_eq!(read_layout(b"0\nanything at all"), Ok(vec![]));
}

#[test]
fn layout_refuses_a_bad_count() {
    assert_eq!(read_layout(b""), Err(MeshError::Count));
    assert_eq!(read_layout(b"two\n0 0 0\n0 0 0\n0 0 0\n"), Err(MeshError::Count));
}

#[test]
fn layout_names_the_first_triangle_that_falls_short() {
    assert_eq!(read_layout(b"1\n"), Err(MeshError::Vertex(0)));
    assert_eq!(read_layout(b"1\n0 0 0\n0 0\n0 0 0\n"), Err(MeshError::Vertex(0)));
    assert_eq!(read_layout(b"1\n0 0 0\n0 0 0\n"), Err(MeshError::Vertex(0)));
    let text = b"3\n0 0 0\n0 0 0\n0 0 0\n1 1 1\n1 1 1\n\n2 2 2\n2 2 2\n2 2 2\n";
    assert_eq!(read_layout(text), Err(MeshError::Vertex(1)));
    let text = b"2\n0 0 0\n0 0 0\n0 0 0\n";
    assert_eq!(read_layout(text), Err(MeshError::Vertex(1)));
}

#[test]
fn layout_takes_no_line_between_triangles() {
    let text = b"1\n\n0 0 0\n1 0 0\n0 1 0\n";
    assert_eq!(read_layout(text), Err(MeshError::Vertex(0)));
    let text = b"2\n0 0 0\n1 0 0\n0 1 0\n\n0 0 1\n1 0 1\n0 1 1\n";
    assert_eq!(read_layout(text), Err(MeshError::Vertex(1)));
}

#[test]
fn layout_with_a_count_beyond_the_text_ends_at_once() {
    let text = format!("{}\n0 0 0\n0 0 0\n0 0 0\n", usize::MAX);
    assert_eq!(read_layout(text.as_bytes()), Err(MeshError::Vertex(1)));
}

#[test]
fn layout_words_hold_no_blank() {
    let text = b"1\n 1.0\t2.0\x0b3.0\x0c\n4 5 6\n7 8 9\n";
    let triangles = read_layout(text).unwrap();
    let t = triangles[0];
    for v in [t.a, t.b, t.c] {
        for span in [v.x, v.y, v.z] {
            assert!(span.start < span.end && span.end <= text.len());
            let word = std::str::from_utf8(&text[span.start..span.end]).unwrap();
            assert!(word.chars().all(|c| !c.is_whitespace()));
        }
    }
    assert_eq!(words(text, t.a), ["1.0", "2.0", "3.0"]);
}

#[test]
fn blanks_are_those_of_unicode() {
    for code in 0..=0x10ffffu32 {
        let c = match char::from_u32(code) {
            Some(c) => c,
            None => continue,
        };
        if c == '\n' {
            continue;
        }
        let line = format!("{}7{}", c, c);
        assert_eq!(read_count(line.as_bytes()) == Some(7), c.is_whitespace());
    }
}

#[test]
fn layout_splits_at_every_unicode_blank() {
    let blanks: Vec<char> = (0..=0x10ffffu32)
        .filter_map(char::from_u32)
        .filter(|c| c.is_whitespace() && *c != '\n')
        .collect();
    assert_eq!(blanks.len(), 24);
    for b in blanks {
        let text = format!("1{b}\n{b}1.5{b}{b}2.5{b}3.5{b}\n4{b}5{b}6\n7{b}8{b}9{b}tail\n");
        let bytes = text.as_bytes();
        let triangles = read_layout(bytes).unwrap();
        assert_eq!(triangles.len(), 1);
        assert_eq!(words(bytes, triangles[0].a), ["1.5", "2.5", "3.5"]);
        assert_eq!(words(bytes, triangles[0].b), ["4", "5", "6"]);
        assert_eq!(words(bytes, triangles[0].c), ["7", "8", "9"]);
    }
}

#[test]
fn layout_words_agree_with_the_standard_splitter() {
    let lines: [&str; 5] = [
        "0.5 1.5 2.5",
        "\u{a0}1\u{2003}2\u{3000}3 4",
        "a\u{85}b\u{1680}c",
        "x\u{200b}y z w",
        "\u{feff}1 2 3",
    ];
    for line in lines {
        let text = format!("1\n{line}\n{line}\n{line}\n");
        let bytes = text.as_bytes();
        let expected: Vec<&str> = line.split_whitespace().take(3).collect();
        let triangles = read_layout(bytes).unwrap();
        assert_eq!(words(bytes, triangles[0].a).to_vec(), expected);
        assert_eq!(words(bytes, triangles[0].c).to_vec(), expected);
    }
}
