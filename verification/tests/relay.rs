use spool_core::relay::{relay_finish, relay_new, relay_step, RelayLine, UMU_RELAY_LINE_CAP, UMU_RELAY_LINE_MAX_BYTES};

fn run(input: &[u8]) -> Vec<RelayLine> {
    let mut s = relay_new();
    let mut out = Vec::new();
    for chunk in input.chunks(8 * 1024) {
        let (s2, lines) = relay_step(s, chunk);
        s = s2;
        out.extend(lines);
    }
    let (_, last) = relay_finish(s);
    out.extend(last);
    out
}

#[test]
fn relay_drops_a_newline_free_blob_instead_of_buffering_it() {
    let blob = vec![b'x'; UMU_RELAY_LINE_MAX_BYTES * 4];
    let out = run(&blob);
    assert!(out.is_empty(), "oversized line never relayed");
}

#[test]
fn relay_resyncs_to_normal_lines_after_an_oversized_one() {
    let mut input = b"before\n".to_vec();
    input.resize(input.len() + UMU_RELAY_LINE_MAX_BYTES * 2, b'x');
    input.push(b'\n');
    input.extend_from_slice(b"after\n");
    let logged: Vec<String> = run(&input).into_iter().filter(|l| l.logged).map(|l| l.text).collect();
    assert_eq!(logged, ["before", "after"]);
}

#[test]
fn relay_strips_cr_and_keeps_a_trailing_line() {
    let out = run(b"one\r\ntwo");
    let texts: Vec<&str> = out.iter().map(|l| l.text.as_str()).collect();
    assert_eq!(texts, ["one", "two"]);
}

#[test]
fn relay_logs_only_up_to_the_cap() {
    let mut input = Vec::new();
    for i in 0..(UMU_RELAY_LINE_CAP + 20) {
        input.extend_from_slice(format!("line {i}\n").as_bytes());
    }
    let (s, out) = relay_step(relay_new(), &input);
    assert_eq!(out.len(), UMU_RELAY_LINE_CAP + 20);
    assert_eq!(out.iter().filter(|l| l.logged).count(), UMU_RELAY_LINE_CAP);
    assert!(!out[UMU_RELAY_LINE_CAP].logged);
    assert_eq!(s.suppressed, 20);
    assert_eq!(s.relayed, UMU_RELAY_LINE_CAP);
}

#[test]
fn relay_line_of_exactly_the_bound_is_kept() {
    let mut input = vec![b'y'; UMU_RELAY_LINE_MAX_BYTES];
    input.push(b'\n');
    let out = run(&input);
    assert_eq!(out.len(), 1);
    assert_eq!(out[0].text.len(), UMU_RELAY_LINE_MAX_BYTES);
    let mut over = vec![b'y'; UMU_RELAY_LINE_MAX_BYTES + 1];
    over.push(b'\n');
    let (s, out) = relay_step(relay_new(), &over);
    assert!(out.is_empty());
    assert_eq!(s.oversized, 1);
}
