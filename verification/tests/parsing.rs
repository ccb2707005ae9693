use vssh::parse::{parse_line, Pipeline, ShellError};

fn parsed(line: &[u8]) -> Pipeline {
    parse_line(&line.to_vec()).expect("line should parse")
}

#[test]
fn single_command_tokenizes_on_whitespace() {
    let p = parsed(b"echo   hello\tworld");
    assert_eq!(p.segments.len(), 1);
    assert_eq!(
        p.segments[0],
        vec![b"echo".to_vec(), b"hello".to_vec(), b"world".to_vec()]
    );
    assert_eq!(p.input_name, None);
    assert_eq!(p.output_name, None);
}

#[test]
fn pipes_make_one_segment_per_part() {
    let p = parsed(b"a one | b two | c three");
    assert_eq!(p.segments.len(), 3);
    assert_eq!(p.segments[0], vec![b"a".to_vec(), b"one".to_vec()]);
    assert_eq!(p.segments[1], vec![b"b".to_vec(), b"two".to_vec()]);
    assert_eq!(p.segments[2], vec![b"c".to_vec(), b"three".to_vec()]);
}

#[test]
fn three_separators_give_four_segments() {
    let p = parsed(b"true|true|true|true");
    assert_eq!(p.segments.len(), 4);
}

#[test]
fn empty_segment_keeps_its_place() {
    let p = parsed(b"echo a | | echo b");
    assert_eq!(p.segments.len(), 3);
    assert_eq!(p.segments[1], Vec::<Vec<u8>>::new());
}

#[test]
fn all_whitespace_line_is_one_empty_segment() {
    let p = parsed(b"   \t  ");
    assert_eq!(p.segments.len(), 1);
    assert_eq!(p.segments[0], Vec::<Vec<u8>>::new());
}

#[test]
fn both_redirections_on_a_single_segment() {
    let p = parsed(b"sort < input.txt > output.txt");
    assert_eq!(p.segments.len(), 1);
    assert_eq!(p.segments[0], vec![b"sort".to_vec()]);
    assert_eq!(p.input_name, Some(b"input.txt".to_vec()));
    assert_eq!(p.output_name, Some(b"output.txt".to_vec()));
}

#[test]
fn input_redirection_strips_the_file_from_the_tokens() {
    let p = parsed(b"grep foo < data.txt");
    assert_eq!(p.segments[0], vec![b"grep".to_vec(), b"foo".to_vec()]);
    for tok in &p.segments[0] {
        assert!(!tok.contains(&b'<'));
        assert_ne!(tok, &b"data.txt".to_vec());
    }
    assert_eq!(p.input_name, Some(b"data.txt".to_vec()));
}

#[test]
fn redirections_attach_to_first_and_last_segments() {
    let p = parsed(b"cat < in.txt | tr a b | sort > out.txt");
    assert_eq!(p.segments.len(), 3);
    assert_eq!(p.segments[0], vec![b"cat".to_vec()]);
    assert_eq!(p.segments[2], vec![b"sort".to_vec()]);
    assert_eq!(p.input_name, Some(b"in.txt".to_vec()));
    assert_eq!(p.output_name, Some(b"out.txt".to_vec()));
}

#[test]
fn mid_segment_marker_stays_a_literal_token() {
    let p = parsed(b"a | b < f | c");
    assert_eq!(p.segments.len(), 3);
    assert_eq!(
        p.segments[1],
        vec![b"b".to_vec(), b"<".to_vec(), b"f".to_vec()]
    );
    assert_eq!(p.input_name, None);
}

#[test]
fn text_after_a_second_marker_is_dropped() {
    let p = parsed(b"cat < a < b");
    assert_eq!(p.segments[0], vec![b"cat".to_vec()]);
    assert_eq!(p.input_name, Some(b"a".to_vec()));
}

#[test]
fn input_marker_without_a_name_is_malformed() {
    let r = parse_line(&b"cat <".to_vec());
    assert_eq!(r.err(), Some(ShellError::MalformedRedirection));
}

#[test]
fn output_marker_without_a_name_is_malformed() {
    let r = parse_line(&b"echo hi > ".to_vec());
    assert_eq!(r.err(), Some(ShellError::MalformedRedirection));
}
