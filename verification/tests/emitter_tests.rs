use ttc_rs::emitter::Emitter;

#[test]
fn new_emitter_is_empty() {
    let emitter = Emitter::new("dummy.c");
    assert_eq!(emitter.output(), "");
    assert_eq!(emitter.outfile(), "dummy.c");
}

#[test]
fn header_comes_before_body() {
    let mut emitter = Emitter::new("dummy.c");
    emitter.emit("a");
    emitter.header_line("h1");
    emitter.emit_line("b");
    emitter.header_line("h2");
    emitter.emit("c");
    assert_eq!(emitter.output(), "h1\nh2\nab\nc");
}

#[test]
fn emit_adds_no_line_break() {
    let mut emitter = Emitter::new("dummy.c");
    emitter.emit("x = ");
    emitter.emit("1");
    emitter.emit_line(";");
    emitter.emit_line("");
    assert_eq!(emitter.output(), "x = 1;\n\n");
}
