use raytracer::obj_loader::{corner, number, split, Entry, ObjLoader};

fn fields(text: &str, separator: u8) -> Vec<String> {
    split(text.as_bytes(), separator)
        .into_iter()
        .map(|f| String::from_utf8(f).unwrap())
        .collect()
}

fn vertex(x: &str, y: &str, z: &str) -> Entry {
    Entry::Vertex(x.as_bytes().to_vec(), y.as_bytes().to_vec(), z.as_bytes().to_vec())
}

fn normal(x: &str, y: &str, z: &str) -> Entry {
    Entry::Normal(x.as_bytes().to_vec(), y.as_bytes().to_vec(), z.as_bytes().to_vec())
}

#[test]
fn split_cuts_at_every_separator() {
    assert_eq!(fields("", b' '), vec![""]);
    assert_eq!(fields("abc", b' '), vec!["abc"]);
    assert_eq!(fields("a b c", b' '), vec!["a", "b", "c"]);
    assert_eq!(fields(" a", b' '), vec!["", "a"]);
    assert_eq!(fields("a ", b' '), vec!["a", ""]);
    assert_eq!(fields("a  b", b' '), vec!["a", "", "b"]);
    assert_eq!(fields("1/2/3", b'/'), vec!["1", "2", "3"]);
    assert_eq!(fields("1//3", b'/'), vec!["1", "", "3"]);
    assert_eq!(fields("x\ny\n", b'\n'), vec!["x", "y", ""]);
}

#[test]
fn split_agrees_with_the_standard_library() {
    for text in ["", "a", "a b", "  ", " a  b ", "v 1 2 3", "f 1/2/3 4/5/6 7/8/9", "a/b", "/"] {
        for separator in [b' ', b'/', b'a'] {
            let theirs: Vec<String> =
                text.split(separator as char).map(|f| f.to_string()).collect();
            assert_eq!(fields(text, separator), theirs);
        }
    }
}

#[test]
fn number_reads_decimal_digits() {
    assert_eq!(number(b"0"), Some(0));
    assert_eq!(number(b"7"), Some(7));
    assert_eq!(number(b"1234"), Some(1234));
    assert_eq!(number(b"007"), Some(7));
    assert_eq!(number(b"+5"), Some(5));
    assert_eq!(number(b""), None);
    assert_eq!(number(b"+"), None);
    assert_eq!(number(b"-5"), None);
    assert_eq!(number(b"++5"), None);
    assert_eq!(number(b"5+"), None);
    assert_eq!(number(b"1.5"), None);
    assert_eq!(number(b" 5"), None);
    assert_eq!(number(b"5\r"), None);
    assert_eq!(number(b"12a"), None);
}

#[test]
fn number_stops_at_the_machine_word() {
    let most = usize::MAX.to_string();
    assert_eq!(number(most.as_bytes()), Some(usize::MAX));
    let more = format!("{}0", most);
    assert_eq!(number(more.as_bytes()), None);
    let next = (usize::MAX as u128 + 1).to_string();
    assert_eq!(number(next.as_bytes()), None);
    assert_eq!(number(b"99999999999999999999999999999999999999x"), None);
}

#[test]
fn number_agrees_with_the_standard_library() {
    for text in ["0", "42", "+42", "-1", "", "+", "4 2", "18446744073709551615", "18446744073709551616", "000000000000000000000001", "1e3"] {
        assert_eq!(number(text.as_bytes()), text.parse::<usize>().ok(), "{:?}", text);
    }
}

#[test]
fn corner_takes_the_first_and_the_third_part() {
    assert_eq!(corner(b"1/2/3"), Some((1, 3)));
    assert_eq!(corner(b"10//30"), Some((10, 30)));
    assert_eq!(corner(b"1/x/3"), Some((1, 3)));
    assert_eq!(corner(b"1/2/3/4"), Some((1, 3)));
    assert_eq!(corner(b"1/2"), None);
    assert_eq!(corner(b"1"), None);
    assert_eq!(corner(b""), None);
    assert_eq!(corner(b"1/2/"), None);
    assert_eq!(corner(b"/2/3"), None);
    assert_eq!(corner(b"a/2/3"), None);
    assert_eq!(corner(b"1/2/3\r"), None);
}

#[test]
fn parse_reads_vertices_normals_and_faces() {
    let text = "# a square\n\nv 0 0 0\nv 1.0 0 0\nv 0 1e0 0\nvn 0 0 1\ns off\no thing\nf 1/1/1 2/1/1 3/1/1\n";
    let entries = ObjLoader::parse(text.as_bytes()).unwrap();
    assert_eq!(
        entries,
        vec![
            vertex("0", "0", "0"),
            vertex("1.0", "0", "0"),
            vertex("0", "1e0", "0"),
            normal("0", "0", "1"),
            Entry::Corner(1, 1),
            Entry::Corner(2, 1),
            Entry::Corner(3, 1),
        ]
    );
}

#[test]
fn parse_skips_what_it_does_not_know_and_reads_no_further_than_it_must() {
    assert_eq!(ObjLoader::parse(b"").unwrap(), vec![]);
    assert_eq!(ObjLoader::parse(b"\n\n\n").unwrap(), vec![]);
    assert_eq!(ObjLoader::parse(b"# v\nvt 1 2\nusemtl x\n v 1 2 3\n").unwrap(), vec![]);
    assert_eq!(ObjLoader::parse(b"v 1 2 3 4 5").unwrap(), vec![vertex("1", "2", "3")]);
    assert_eq!(ObjLoader::parse(b"v  1 2 3").unwrap(), vec![vertex("", "1", "2")]);
    assert_eq!(ObjLoader::parse(b"vn a b c\r").unwrap(), vec![normal("a", "b", "c\r")]);
    assert_eq!(
        ObjLoader::parse(b"f 0/0/0 0/0/0 0/0/0 9/9/9").unwrap(),
        vec![Entry::Corner(0, 0), Entry::Corner(0, 0), Entry::Corner(0, 0)]
    );
}

#[test]
fn parse_fails_on_short_statements_bad_corners_and_unknown_indices() {
    assert!(ObjLoader::parse(b"v 1 2").is_none());
    assert!(ObjLoader::parse(b"vn").is_none());
    assert!(ObjLoader::parse(b"f 0/0/0 0/0/0").is_none());
    assert!(ObjLoader::parse(b"f 0/0 0/0/0 0/0/0").is_none());
    assert!(ObjLoader::parse(b"f 0/0/0 0/0/0 0/0/x").is_none());
    assert!(ObjLoader::parse(b"f 1/0/0 0/0/0 0/0/0").is_none());
    assert!(ObjLoader::parse(b"f 0/0/1 0/0/0 0/0/0").is_none());
    assert!(ObjLoader::parse(b"f 1/0/0 0/0/0 0/0/0\nv 1 2 3").is_none());
    assert!(ObjLoader::parse(b"v 1 2 3\nf 1/0/0 0/0/0 0/0/0").is_some());
    assert!(ObjLoader::parse(b"v 1 2 3\nf 1/0/1 0/0/0 0/0/0\nvn 0 0 1").is_none());
    assert!(ObjLoader::parse(b"v 1 2 3\nf 0/0/0 0/0/0 0/0/0\nv 1").is_none());
}
