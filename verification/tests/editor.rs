use canopy::widgets::editor::{CharPos, Chunk, Cursor, InsertPos, Line, Pos, State, Window};

/// A state with one chunk for each given line, each wrapped into lines of
/// the given ranges.
fn state(lines: &[(&str, &[(usize, usize)])]) -> State {
    State::from_chunks(
        lines
            .iter()
            .map(|(text, wraps)| Chunk::new(text, 80, wraps.to_vec()))
            .collect(),
    )
}

/// The text "a", a line break, and "bb".
fn a_bb() -> State {
    state(&[("a", &[(0, 1)]), ("bb", &[(0, 2)])])
}

// Tiny helper to create an InsertPos
fn ip(chunk: usize, off: usize) -> InsertPos {
    (chunk, off).into()
}

// Tiny helper to create a CharPos
fn cp(chunk: usize, off: usize) -> CharPos {
    (chunk, off).into()
}

#[test]
fn insertpos_cap() {
    let s = a_bb();
    assert_eq!(ip(0, 0).cap(&s), (0, 0).into());
    assert_eq!(ip(0, 2).cap(&s), (0, 1).into());
    assert_eq!(ip(3, 0).cap(&s), (1, 2).into());
    assert_eq!(ip(3, 3).cap(&s), (1, 2).into());
}

#[test]
fn insertpos_shift() {
    let s = a_bb();
    assert_eq!(ip(0, 0).shift(&s, 1), (0, 1).into());
    assert_eq!(ip(0, 0).shift(&s, 100), (0, 1).into());
    assert_eq!(ip(0, 0).shift(&s, 100).shift(&s, isize::MAX), (0, 1).into());
    assert_eq!(ip(0, 1).shift(&s, 1), (0, 1).into());
    assert_eq!(ip(1, 1).shift(&s, 1), (1, 2).into());
    assert_eq!(ip(1, 2).shift(&s, 1), (1, 2).into());

    // Beyond bounds
    assert_eq!(ip(1, 3).shift(&s, 1), (1, 2).into());
    assert_eq!(ip(5, 0).shift(&s, 1), (1, 2).into());

    // Negative
    assert_eq!(ip(0, 0).shift(&s, -1), (0, 0).into());
    assert_eq!(ip(0, 1).shift(&s, -1), (0, 0).into());
    assert_eq!(ip(1, 2).shift(&s, -1), (1, 1).into());
    assert_eq!(ip(1, 2).shift(&s, isize::MIN), (1, 0).into());
}

#[test]
fn charpos_shift() {
    let s = a_bb();
    assert_eq!(cp(0, 0).shift(&s, 1), (0, 0).into());
    assert_eq!(cp(0, 0).shift(&s, 100), (0, 0).into());
    assert_eq!(cp(0, 0).shift(&s, 100).shift(&s, isize::MAX), (0, 0).into());
    assert_eq!(cp(1, 0).shift(&s, 100).shift(&s, isize::MAX), (1, 1).into());
    assert_eq!(cp(0, 1).shift(&s, 1), (0, 0).into());
    assert_eq!(cp(1, 0).shift(&s, 1), (1, 1).into());
    assert_eq!(cp(1, 1).shift(&s, 1), (1, 1).into());

    // Beyond bounds
    assert_eq!(cp(1, 3).shift(&s, 1), (1, 1).into());
    assert_eq!(cp(5, 0).shift(&s, 1), (1, 1).into());

    // Negative
    assert_eq!(cp(0, 0).shift(&s, -1), (0, 0).into());
    assert_eq!(cp(0, 1).shift(&s, -1), (0, 0).into());
    assert_eq!(cp(1, 2).shift(&s, -1), (1, 1).into());
    assert_eq!(cp(1, 2).shift(&s, isize::MIN), (1, 0).into());
}

#[test]
fn shift_at_the_ends_of_the_range() {
    let s = a_bb();
    assert_eq!(ip(1, usize::MAX).shift(&s, isize::MAX), (1, 2).into());
    assert_eq!(ip(1, usize::MAX).shift(&s, isize::MIN), (1, 2).into());
    assert_eq!(ip(1, 1).shift(&s, 0), (1, 1).into());
    assert_eq!(ip(1, 1).chunk_offset(), (1, 1));
}

#[test]
fn cursor_kinds() {
    let s = a_bb();
    assert_eq!(Cursor::Insert(ip(1, 0)).shift(&s, 5), Cursor::Insert(ip(1, 2)));
    assert_eq!(Cursor::Char(cp(1, 0)).shift(&s, 5), Cursor::Char(cp(1, 1)));
    assert_eq!(Cursor::Insert(ip(1, 2)).insert(), ip(1, 2));
    assert_eq!(Cursor::Char(cp(1, 1)).insert(), ip(1, 1));
    assert_eq!(InsertPos::from(cp(1, 1)), ip(1, 1));
    assert_eq!(CharPos::from(ip(1, 2)), cp(1, 1));
    assert_eq!(CharPos::from(ip(1, 0)), cp(1, 0));
}

#[test]
fn state_without_chunks() {
    let s = State::from_chunks(vec![]);
    assert_eq!(s.chunks.len(), 1);
    assert_eq!(s.chunks[0].as_str(), "");
    assert_eq!(s.chunks[0].wraps, vec![(0, 0)]);
    assert_eq!(s.last(), ip(0, 0));
    assert_eq!(ip(4, 4).cap(&s), ip(0, 0));
    assert_eq!(a_bb().last(), ip(1, 2));
}

#[test]
fn lines_run_over_chunks() {
    let s = state(&[
        ("one two three four", &[(0, 7), (8, 18)]),
        ("", &[(0, 0)]),
        ("x", &[(0, 1)]),
    ]);
    let first = Line::from((0, 0));
    assert_eq!(first.add(&s, 0), Some(first));
    assert_eq!(first.add(&s, 1), Some((0, 1).into()));
    assert_eq!(first.add(&s, 2), Some((1, 0).into()));
    assert_eq!(first.add(&s, 3), Some((2, 0).into()));
    assert_eq!(first.add(&s, 4), None);
    assert_eq!(Line::from((2, 0)).add(&s, 1), None);

    let w = Window { line: (0, 1).into(), height: 4 };
    assert_eq!(
        w.lines(&s),
        vec![Some((0, 1).into()), Some((1, 0).into()), Some((2, 0).into()), None]
    );
    assert_eq!(Window { line: first, height: 0 }.lines(&s), vec![]);
}

#[test]
fn chunk_text() {
    let mut c = Chunk::new("one two three four", 10, vec![(0, 7), (8, 18)]);
    assert_eq!(c.len(), 18);
    assert_eq!(c.wrapped_line(0), "one two");
    assert_eq!(c.wrapped_line(1), "three four");

    c.insert(4, "and ", vec![(0, 7), (8, 17), (18, 22)]);
    assert_eq!(c.as_str(), "one and two three four");
    assert_eq!(c.wrapped_line(2), "four");
    assert_eq!(c.wrap_width, 10);

    c.replace_range(0, 8, "", vec![(0, 9), (10, 14)]);
    assert_eq!(c.as_str(), "two three four");
    assert_eq!(c.wrapped_line(0), "two three");

    c.push_str("!", vec![(0, 9), (10, 15)]);
    assert_eq!(c.as_str(), "two three four!");
    assert_eq!(c.wrapped_line(1), "four!");

    assert_eq!(c.wrap(100, vec![(0, 15)]), 1);
    assert_eq!(c.wrap_width, 100);
    assert_eq!(c.wrapped_line(0), "two three four!");

    let mut wide = Chunk::new("añb", 80, vec![(0, 4)]);
    assert_eq!(wide.len(), 4);
    wide.insert(3, "-", vec![(0, 3), (3, 5)]);
    assert_eq!(wide.as_str(), "añ-b");
    assert_eq!(wide.wrapped_line(0), "añ");
}
