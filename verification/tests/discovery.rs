use image_parse::discover::{discover, Discovery, Entry, Summary, HEARTBEAT_INTERVAL};
use image_parse::mapping::map_path;

fn file(path: &str) -> Entry {
    Entry { path: path.to_string(), is_file: true }
}

fn directory(path: &str) -> Entry {
    Entry { path: path.to_string(), is_file: false }
}

#[test]
fn a_fresh_discovery_is_empty() {
    let found: Discovery = Discovery::new();
    assert_eq!(found.len(), 0);
    assert!(found.candidates().is_empty());
    assert_eq!(found.summary(), Summary { png: 0, jpeg: 0 });
}

#[test]
fn images_become_candidates_in_the_order_of_the_walk() {
    let entries: Vec<Entry> = vec![
        directory("in"),
        file("in/z.png"),
        file("in/a.jpg"),
        directory("in/sub"),
        file("in/sub/m.JPEG"),
    ];
    let found: Discovery = discover(&entries);
    assert_eq!(
        found.into_candidates(),
        vec!["in/z.png".to_string(), "in/a.jpg".to_string(), "in/sub/m.JPEG".to_string()]
    );
}

#[test]
fn only_regular_files_become_candidates() {
    let entries: Vec<Entry> = vec![directory("in/album.png"), directory("in/x.jpg"), file("in/album.png/a.png")];
    let found: Discovery = discover(&entries);
    assert_eq!(found.into_candidates(), vec!["in/album.png/a.png".to_string()]);
}

#[test]
fn the_summary_tells_png_from_jpeg() {
    let entries: Vec<Entry> = vec![
        file("in/a.png"),
        file("in/b.PNG"),
        file("in/c.jpg"),
        file("in/d.jpeg"),
        file("in/e.JPEG"),
        file("in/f.txt"),
        file("in/g"),
    ];
    let found: Discovery = discover(&entries);
    assert_eq!(found.len(), 5);
    assert_eq!(found.summary(), Summary { png: 2, jpeg: 3 });
}

#[test]
fn visit_reports_only_what_it_took_in() {
    let mut found: Discovery = Discovery::new();
    assert_eq!(found.visit("in/a.txt", true), None);
    assert_eq!(found.len(), 0);
    assert_eq!(found.visit("in/a.png", false), None);
    assert_eq!(found.len(), 0);
    assert_eq!(found.visit("in/a.png", true), None);
    assert_eq!(found.len(), 1);
    assert_eq!(found.candidates(), &vec!["in/a.png".to_string()]);
}

#[test]
fn a_heartbeat_is_due_every_hundred_candidates() {
    assert_eq!(HEARTBEAT_INTERVAL, 100);
    let mut found: Discovery = Discovery::new();
    let mut beats: Vec<usize> = Vec::new();
    for i in 0..250usize {
        let path: String = format!("in/{}.png", i);
        if let Some(count) = found.visit(&path, true) {
            beats.push(count);
        }
        assert_eq!(found.visit("in/skip.txt", true), None);
    }
    assert_eq!(beats, vec![100usize, 200usize]);
    assert_eq!(found.summary(), Summary { png: 250, jpeg: 0 });
}

#[test]
fn the_hundredth_candidate_gives_the_heartbeat_not_the_entry_after_it() {
    let mut found: Discovery = Discovery::new();
    for i in 0..99usize {
        assert_eq!(found.visit(&format!("in/{}.jpg", i), true), None);
    }
    assert_eq!(found.visit("in/last.jpeg", true), Some(100));
    assert_eq!(found.visit("in/not_an_image", true), None);
    assert_eq!(found.visit("in/dir.png", false), None);
    assert_eq!(found.visit("in/next.png", true), None);
    assert_eq!(found.summary(), Summary { png: 1, jpeg: 100 });
}

#[test]
fn a_tree_with_two_images_and_a_text_file() {
    let entries: Vec<Entry> = vec![
        directory("in"),
        file("in/a.png"),
        file("in/c.txt"),
        directory("in/sub"),
        file("in/sub/b.jpg"),
    ];
    let found: Discovery = discover(&entries);
    assert_eq!(found.summary(), Summary { png: 1, jpeg: 1 });
    let outputs: Vec<String> = found
        .candidates()
        .iter()
        .map(|candidate| match map_path(candidate, "in", "out") {
            Ok(path) => path,
            Err(_) => panic!("{} has no output path", candidate),
        })
        .collect();
    assert_eq!(outputs, vec!["out/a.jpg".to_string(), "out/sub/b.jpg".to_string()]);
    assert!(!outputs.iter().any(|path| path.contains("c.")));
}

#[test]
fn an_empty_tree_has_no_candidates() {
    let entries: Vec<Entry> = vec![directory("in")];
    let found: Discovery = discover(&entries);
    assert_eq!(found.len(), 0);
    assert_eq!(found.summary(), Summary { png: 0, jpeg: 0 });
    let nothing: Vec<Entry> = Vec::new();
    assert_eq!(discover(&nothing).len(), 0);
}
