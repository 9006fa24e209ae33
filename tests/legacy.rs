use map_editor::legacy::{parse_index_line, MeshPath};

fn line(s: &str) -> Vec<u8> {
    s.as_bytes().to_vec()
}

#[test]
fn index_line_of_an_exported_mesh() {
    assert_eq!(
        parse_index_line(&line("0 1 3 2 2 3 4 5 0 1 3 2")),
        Some(vec![0, 1, 3, 2, 2, 3, 4, 5, 0, 1, 3, 2])
    );
}

#[test]
fn empty_pieces_between_spaces_are_skipped() {
    assert_eq!(parse_index_line(&line("  4  5 6 ")), Some(vec![4, 5, 6]));
    assert_eq!(parse_index_line(&line("")), Some(vec![]));
    assert_eq!(parse_index_line(&line("   ")), Some(vec![]));
}

#[test]
fn index_tokens_read_as_u32() {
    assert_eq!(parse_index_line(&line("+7 4294967295")), Some(vec![7, u32::MAX]));
    assert_eq!(parse_index_line(&line("4294967296")), None);
    assert_eq!(parse_index_line(&line("1 -1")), None);
    assert_eq!(parse_index_line(&line("1a 2")), None);
    assert_eq!(parse_index_line(&line("3 +")), None);
    assert_eq!(parse_index_line(&line("0.5")), None);
}

#[test]
fn mesh_path_keeps_its_text() {
    assert_eq!(MeshPath::new("assets/meshes/rock.txt").0, "assets/meshes/rock.txt");
}
