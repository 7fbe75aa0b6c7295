use gocar::headers::{extract_headers, filter_headers, whitespace, HeaderExtractor};

#[test]
fn headers_of_a_rule() {
    let text = b"main.o: /p/src/main.c /p/src/foo.h \\\n /p/src/bar.hpp \\\n  /usr/include/stdio.h\n".to_vec();
    assert_eq!(
        extract_headers(text),
        vec![b"/p/src/foo.h".to_vec(), b"/p/src/bar.hpp".to_vec(), b"/usr/include/stdio.h".to_vec()]
    );
}

#[test]
fn target_and_source_are_dropped() {
    assert_eq!(extract_headers(b"main.o: main.c\n".to_vec()), Vec::<Vec<u8>>::new());
    assert_eq!(extract_headers(b"main.o: main.c impl.inc data.hh x.H\n".to_vec()), Vec::<Vec<u8>>::new());
}

#[test]
fn empty_output_has_no_headers() {
    assert_eq!(extract_headers(Vec::new()), Vec::<Vec<u8>>::new());
    assert_eq!(extract_headers(b" \n \t ".to_vec()), Vec::<Vec<u8>>::new());
}

#[test]
fn header_at_the_very_end() {
    assert_eq!(extract_headers(b"a.o: a.c a.h".to_vec()), vec![b"a.h".to_vec()]);
    assert_eq!(extract_headers(b"a.h".to_vec()), vec![b"a.h".to_vec()]);
}

#[test]
fn any_white_space_divides_words() {
    assert_eq!(
        extract_headers(b"a.o:\ta.h\nb.h\r\nc.hpp\x0cd.h  e.h".to_vec()),
        vec![b"a.h".to_vec(), b"b.h".to_vec(), b"c.hpp".to_vec(), b"d.h".to_vec(), b"e.h".to_vec()]
    );
}

#[test]
fn headers_come_in_the_order_of_the_text_and_may_repeat() {
    assert_eq!(
        extract_headers(b"x.o: z.h a.h z.h".to_vec()),
        vec![b"z.h".to_vec(), b"a.h".to_vec(), b"z.h".to_vec()]
    );
}

#[test]
fn the_suffix_alone_is_a_header() {
    assert_eq!(extract_headers(b".h .hpp h hpp".to_vec()), vec![b".h".to_vec(), b".hpp".to_vec()]);
}

#[test]
fn next_hands_out_one_header_at_a_time() {
    let mut extractor = HeaderExtractor::new(b"a.o: a.c one.h \\\n two.hpp\n".to_vec());
    assert_eq!(extractor.next(), Some(b"one.h".to_vec()));
    assert_eq!(extractor.next(), Some(b"two.hpp".to_vec()));
    assert_eq!(extractor.next(), None);
    assert_eq!(extractor.next(), None);
}

#[test]
fn filter_headers_goes_by_the_suffix() {
    assert!(filter_headers(b"foo.h"));
    assert!(filter_headers(b"/a/b/foo.hpp"));
    assert!(filter_headers(b"foo.c.h"));
    assert!(!filter_headers(b"foo.c"));
    assert!(!filter_headers(b"foo.hh"));
    assert!(!filter_headers(b"foo.h.c"));
    assert!(!filter_headers(b"main.o:"));
    assert!(!filter_headers(b"\\"));
    assert!(!filter_headers(b""));
}

#[test]
fn white_space_bytes() {
    for b in [b' ', b'\t', b'\n', b'\r', 0x0c] {
        assert!(whitespace(b));
    }
    for b in [b'a', b'\\', b'.', 0u8, 0x0b, 0xa0] {
        assert!(!whitespace(b));
    }
}
