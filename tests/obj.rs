use rtir::obj::{
    parse_corner, parse_index, parse_line, resolve_face, split_fields, split_parts, FaceError,
    ObjLine,
};

fn b(s: &str) -> Vec<u8> {
    s.as_bytes().to_vec()
}

#[test]
fn fields_split_on_any_whitespace() {
    assert_eq!(split_fields(&b("  v 1.0\t2.5   -3 \r\n")), vec![b("v"), b("1.0"), b("2.5"), b("-3")]);
    assert!(split_fields(&b("")).is_empty());
    assert!(split_fields(&b(" \t ")).is_empty());
}

#[test]
fn parts_keep_empty_pieces() {
    assert_eq!(split_parts(&b("1//3"), b'/'), vec![b("1"), b(""), b("3")]);
    assert_eq!(split_parts(&b("7"), b'/'), vec![b("7")]);
    assert_eq!(split_parts(&b(""), b'/'), vec![b("")]);
}

#[test]
fn index_fields_are_one_based() {
    assert_eq!(parse_index(&b("1")), 0);
    assert_eq!(parse_index(&b("42")), 41);
    assert_eq!(parse_index(&b("+7")), 6);
    assert_eq!(parse_index(&b("18446744073709551615")), usize::MAX - 1);
}

#[test]
fn bad_index_fields_name_nothing() {
    assert_eq!(parse_index(&b("0")), usize::MAX);
    assert_eq!(parse_index(&b("")), usize::MAX);
    assert_eq!(parse_index(&b("+")), usize::MAX);
    assert_eq!(parse_index(&b("-1")), usize::MAX);
    assert_eq!(parse_index(&b("1a")), usize::MAX);
    assert_eq!(parse_index(&b("18446744073709551616")), usize::MAX);
}

#[test]
fn corner_forms() {
    assert_eq!(parse_corner(&b("3")), vec![2]);
    assert_eq!(parse_corner(&b("3/4")), vec![2, 3]);
    assert_eq!(parse_corner(&b("3/4/5")), vec![2, 3, 4]);
    assert_eq!(parse_corner(&b("3//5")), vec![2, usize::MAX, 4]);
}

#[test]
fn line_records() {
    match parse_line(&b("v 1 2.5 -3")) {
        ObjLine::Position(a) => assert_eq!(a, vec![b("1"), b("2.5"), b("-3")]),
        _ => panic!("expected a position"),
    }
    match parse_line(&b("vt 0.5 1")) {
        ObjLine::TexCoord(a) => assert_eq!(a, vec![b("0.5"), b("1")]),
        _ => panic!("expected a texture coordinate"),
    }
    match parse_line(&b("vn 0 0 1")) {
        ObjLine::Normal(a) => assert_eq!(a, vec![b("0"), b("0"), b("1")]),
        _ => panic!("expected a normal"),
    }
    match parse_line(&b("f 1/1/1 2/2/2 3/3/3")) {
        ObjLine::Face(c) => assert_eq!(c, vec![vec![0, 0, 0], vec![1, 1, 1], vec![2, 2, 2]]),
        _ => panic!("expected a face"),
    }
    assert!(matches!(parse_line(&b("")), ObjLine::Other));
    assert!(matches!(parse_line(&b("# comment")), ObjLine::Other));
    assert!(matches!(parse_line(&b("g cube")), ObjLine::Other));
    assert!(matches!(parse_line(&b("usemtl red")), ObjLine::Other));
    assert!(matches!(parse_line(&b("vx 1 2 3")), ObjLine::Other));
}

#[test]
fn flat_face_uses_positions_only() {
    let f = resolve_face(&vec![vec![0], vec![1, 5, 5], vec![2]], 3, 0, 0).unwrap();
    assert_eq!(f.positions, (0, 1, 2));
    assert!(f.texcoords_normals.is_none());
}

#[test]
fn shaded_face_takes_all_indices() {
    let c = vec![vec![0, 3, 6], vec![1, 4, 7], vec![2, 5, 8], vec![9, 9, 9]];
    let f = resolve_face(&c, 3, 6, 9).unwrap();
    assert_eq!(f.positions, (0, 1, 2));
    assert_eq!(f.texcoords_normals, Some(((3, 4, 5), (6, 7, 8))));
}

#[test]
fn face_errors() {
    assert_eq!(resolve_face(&vec![vec![0], vec![1]], 3, 0, 0).unwrap_err(), FaceError::TooFewCorners);
    assert_eq!(resolve_face(&vec![vec![0], vec![1], vec![3]], 3, 0, 0).unwrap_err(), FaceError::BadIndex);
    assert_eq!(
        resolve_face(&vec![vec![0, 0], vec![1, 0], vec![2, 0]], 3, 1, 1).unwrap_err(),
        FaceError::BadIndex
    );
    assert_eq!(
        resolve_face(&vec![vec![0, 0, 0], vec![1, 0, 1], vec![2, 0, 0]], 3, 1, 1).unwrap_err(),
        FaceError::BadIndex
    );
    assert_eq!(
        resolve_face(&vec![vec![0, usize::MAX, 0], vec![1, 0, 0], vec![2, 0, 0]], 3, 1, 1).unwrap_err(),
        FaceError::BadIndex
    );
    assert_eq!(resolve_face(&vec![vec![], vec![1], vec![2]], 3, 0, 0).unwrap_err(), FaceError::BadIndex);
}
