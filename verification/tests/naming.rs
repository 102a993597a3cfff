use slidedeck::errors::Error;
use slidedeck::paths::{dec_str, join_path, resolve_output_dir, thumb_rel_path, thumb_rel_paths};

#[test]
fn thumb_names_indexed_contiguously() {
    let v = thumb_rel_paths(3);
    assert_eq!(v.len(), 3);
    assert_eq!(v[0], "thumbs/0.jpg");
    assert_eq!(v[1], "thumbs/1.jpg");
    assert_eq!(v[2], "thumbs/2.jpg");
}

#[test]
fn thumb_names_distinct() {
    let v = thumb_rel_paths(25);
    for i in 0..v.len() {
        for j in 0..v.len() {
            if i != j {
                assert_ne!(v[i], v[j]);
            }
        }
    }
}

#[test]
fn multi_digit_indices() {
    assert_eq!(thumb_rel_path(12), "thumbs/12.jpg");
    assert_eq!(dec_str(0), "0");
    assert_eq!(dec_str(105), "105");
    assert_eq!(dec_str(10), "10");
}

#[test]
fn output_dir_from_stem() {
    assert_eq!(resolve_output_dir("talks/deck.pdf", &None).unwrap(), "deck");
    assert_eq!(resolve_output_dir("deck.pdf", &None).unwrap(), "deck");
    assert_eq!(resolve_output_dir("a/b/archive.tar.pdf", &None).unwrap(), "archive.tar");
    assert_eq!(resolve_output_dir(".hidden", &None).unwrap(), ".hidden");
    assert_eq!(resolve_output_dir("deck.pdf", &Some("out".to_string())).unwrap(), "out");
}

#[test]
fn invalid_paths_rejected() {
    assert_eq!(resolve_output_dir("", &None).unwrap_err(), Error::InvalidPath);
    assert_eq!(resolve_output_dir("dir/", &None).unwrap_err(), Error::InvalidPath);
    assert_eq!(resolve_output_dir("..", &None).unwrap_err(), Error::InvalidPath);
    assert_eq!(resolve_output_dir("", &Some("out".to_string())).unwrap(), "out");
}

#[test]
fn join_paths() {
    assert_eq!(join_path("out", "thumbs"), "out/thumbs");
    assert_eq!(join_path("out", "slides.html"), "out/slides.html");
}
