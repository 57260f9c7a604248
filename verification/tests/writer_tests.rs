use as_witx::pretty_writer::PrettyWriter;

#[test]
fn writer_accumulates_raw_text() {
    let mut w = PrettyWriter::new("    ");
    w.write("a");
    w.write("b");
    assert_eq!(w.finish(), "ab");
}

#[test]
fn write_line_indents_and_terminates() {
    let mut w = PrettyWriter::new_with_indent(2, "  ");
    w.write_line("x");
    assert_eq!(w.finish(), "    x\n");
}

#[test]
fn write_lines_splits_on_newlines() {
    let mut w = PrettyWriter::new_with_indent(1, "\t");
    w.write_lines("a\nb\n\nc");
    assert_eq!(w.finish(), "\ta\n\tb\n\t\n\tc\n");
}

#[test]
fn write_lines_keeps_trailing_newline_single() {
    let mut w = PrettyWriter::new("  ");
    w.write_lines("a\n");
    assert_eq!(w.finish(), "a\n");
}

#[test]
fn indent_and_continuation() {
    let mut w = PrettyWriter::new_with_indent(2, "..");
    w.indent();
    w.write("x");
    w.eol();
    w.continuation();
    w.write("y");
    w.eob();
    assert_eq!(w.finish(), "....x\n....    y\n");
}

#[test]
fn with_block_indents_inner_lines() {
    let mut w = PrettyWriter::new("  ");
    w.write_line("a");
    w.with_block(|mut inner: PrettyWriter| {
        inner.write_line("b");
        inner
    });
    w.write_line("c");
    assert_eq!(w.finish(), "a\n  b\nc\n");
}

#[test]
fn braced_wraps_inner_text() {
    let mut w = PrettyWriter::new("  ");
    w.braced(|mut inner: PrettyWriter| {
        inner.write_line("b");
        inner
    });
    assert_eq!(w.finish(), "{  b\n}");
}

#[test]
fn chained_calls_accumulate_in_order() {
    let mut w = PrettyWriter::new("  ");
    w.write("a").write("b").eol().write_line("c");
    assert_eq!(w.finish(), "ab\nc\n");
}

#[test]
fn finish_leaves_writer_usable() {
    let mut w = PrettyWriter::new("  ");
    w.write("a");
    assert_eq!(w.finish(), "a");
    w.write("b");
    assert_eq!(w.finish(), "ab");
}
