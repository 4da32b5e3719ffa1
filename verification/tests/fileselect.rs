use idp_tool::fileset::{contains_bytes, select_pair, NamedFile};

fn nf(name: &str) -> NamedFile {
    NamedFile { name: name.as_bytes().to_vec(), data: Vec::new() }
}

#[test]
fn substring_search_finds_tokens() {
    let hay = b"run7_PNReset_C1717_out.idp".to_vec();
    assert!(contains_bytes(&hay, &b"C1717".to_vec()));
    assert!(contains_bytes(&hay, &b"PNReset".to_vec()));
    assert!(!contains_bytes(&hay, &b"C2525".to_vec()));
    assert!(!contains_bytes(&hay, &b"C17175x".to_vec()));
    assert!(contains_bytes(&hay, &Vec::new()));
    assert!(!contains_bytes(&Vec::new(), &b"C".to_vec()));
}

#[test]
fn pair_selection_takes_the_first_two_matches_in_order() {
    let files = vec![
        nf("a_C9999.idp"),
        nf("b_C2525.idp"),
        nf("c_C1717.idp"),
        nf("d_C2525.idp"),
    ];
    let (i, j) = select_pair(&files, &b"C1717".to_vec(), &b"C2525".to_vec()).unwrap();
    assert_eq!((i, j), (1, 2));
}

#[test]
fn pair_selection_fails_below_two_matches() {
    let files = vec![nf("a_C1717.idp"), nf("b_C9999.idp")];
    assert_eq!(select_pair(&files, &b"C1717".to_vec(), &b"C2525".to_vec()), None);
    assert_eq!(select_pair(&Vec::new(), &b"C1717".to_vec(), &b"C2525".to_vec()), None);
}
