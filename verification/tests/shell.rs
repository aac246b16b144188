use rcore_os::user::shell::{handle_key, plan_pipeline, split, KeyAction, Stage, BS, CR, DL, LF};

fn s(x: &str) -> Vec<u8> {
    x.as_bytes().to_vec()
}

fn z(x: &str) -> Vec<u8> {
    let mut v = s(x);
    v.push(0);
    v
}

fn stage(p: &Option<Stage>) -> (Vec<Vec<u8>>, Vec<u8>, Vec<u8>) {
    let st = p.as_ref().unwrap();
    (st.args.clone(), st.input.clone(), st.output.clone())
}

#[test]
fn keys_edit_the_line() {
    let mut line = Vec::new();
    assert_eq!(handle_key(&mut line, BS), KeyAction::Ignore);
    assert_eq!(handle_key(&mut line, b'l'), KeyAction::Echo(b'l'));
    assert_eq!(handle_key(&mut line, b's'), KeyAction::Echo(b's'));
    assert_eq!(handle_key(&mut line, b'x'), KeyAction::Echo(b'x'));
    assert_eq!(handle_key(&mut line, DL), KeyAction::Erase);
    assert_eq!(line, vec!['l', 's']);
    assert_eq!(handle_key(&mut line, LF), KeyAction::Submit);
    assert_eq!(handle_key(&mut line, CR), KeyAction::Submit);
    assert_eq!(line, vec!['l', 's']);
}

#[test]
fn high_bytes_are_characters() {
    let mut line = Vec::new();
    assert_eq!(handle_key(&mut line, 0xe9), KeyAction::Echo(0xe9));
    assert_eq!(handle_key(&mut line, b'a'), KeyAction::Echo(b'a'));
    assert_eq!(line, vec!['\u{e9}', 'a']);
    let text: String = line.iter().collect();
    assert_eq!(text.as_bytes(), &[0xc3, 0xa9, b'a']);
    assert_eq!(handle_key(&mut line, BS), KeyAction::Erase);
    assert_eq!(handle_key(&mut line, BS), KeyAction::Erase);
    assert!(line.is_empty());
}

#[test]
fn split_keeps_empty_pieces() {
    assert_eq!(split(b"a b", b' '), vec![s("a"), s("b")]);
    assert_eq!(split(b" a  b ", b' '), vec![s(""), s("a"), s(""), s("b"), s("")]);
    assert_eq!(split(b"", b'|'), vec![s("")]);
    assert_eq!(split(b"|", b'|'), vec![s(""), s("")]);
}

#[test]
fn single_command_without_redirection() {
    let plans = plan_pipeline(b"cmdline_args 1 2");
    assert_eq!(plans.len(), 1);
    assert_eq!(stage(&plans[0]), (vec![z("cmdline_args"), z("1"), z("2")], s(""), s("")));
}

#[test]
fn pipe_chain_alternates_the_two_files() {
    let plans = plan_pipeline(b"cmdline_args 1 2 3 4|test|test|test");
    assert_eq!(plans.len(), 4);
    assert_eq!(stage(&plans[0]), (vec![z("cmdline_args"), z("1"), z("2"), z("3"), z("4")], s(""), s("ftmp2")));
    assert_eq!(stage(&plans[1]), (vec![z("test")], s("ftmp2"), s("ftmp1")));
    assert_eq!(stage(&plans[2]), (vec![z("test")], s("ftmp1"), s("ftmp2")));
    assert_eq!(stage(&plans[3]), (vec![z("test")], s("ftmp2"), s("")));
}

#[test]
fn explicit_redirections_win() {
    let plans = plan_pipeline(b"a > out|b|c < in");
    assert_eq!(plans.len(), 3);
    assert_eq!(stage(&plans[0]), (vec![z("a")], s(""), z("out")));
    // b is not fed since a's output went to a file
    assert_eq!(stage(&plans[1]), (vec![z("b")], s(""), s("ftmp1")));
    assert_eq!(stage(&plans[2]), (vec![z("c")], z("in"), s("")));
}

#[test]
fn redirect_token_removed_with_its_name() {
    let plans = plan_pipeline(b"test < ftmp2");
    assert_eq!(stage(&plans[0]), (vec![z("test")], z("ftmp2"), s("")));
    let plans = plan_pipeline(b"x < a < b > c");
    assert_eq!(stage(&plans[0]), (vec![z("x"), z("<"), z("b")], z("a"), z("c")));
}

#[test]
fn dangling_redirection_stops_the_plan() {
    let plans = plan_pipeline(b"a|b <|c");
    assert_eq!(plans.len(), 2);
    assert!(plans[0].is_some());
    assert!(plans[1].is_none());
    let plans = plan_pipeline(b"a >");
    assert_eq!(plans.len(), 1);
    assert!(plans[0].is_none());
}
