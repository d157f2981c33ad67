use dezoomify_rs::dezoomer::{DezoomerError, DezoomerInput, TileFetchResult, TileReference, Vec2d};
use dezoomify_rs::generic::{GenericDezoomer, Stage, ZoomLevel};

fn level_for(uri: &str) -> ZoomLevel {
    GenericDezoomer {}
        .zoom_levels(&DezoomerInput { uri: uri.to_string(), contents: None })
        .unwrap()
        .into_iter()
        .next()
        .unwrap()
}

fn outcome(count: u64, successes: u64, size: Option<Vec2d>) -> TileFetchResult {
    TileFetchResult { count, successes, tile_size: size }
}

fn urls(tiles: &[TileReference]) -> Vec<String> {
    tiles.iter().map(|t| t.url.clone()).collect()
}

/// Drives `lvl` to the end, answering each batch from `existing`; returns the
/// tiles of each batch that was fully found, and the number of calls.
fn drive(lvl: &mut ZoomLevel, existing: &[String], size: Vec2d) -> (Vec<TileReference>, usize) {
    let mut found = vec![];
    let mut previous = None;
    let mut calls = 0;
    loop {
        let tiles = lvl.next_tiles(previous);
        calls += 1;
        if tiles.is_empty() {
            break;
        }
        let count = tiles.len() as u64;
        let successes: Vec<_> = tiles.into_iter().filter(|t| existing.contains(&t.url)).collect();
        previous = Some(outcome(count, successes.len() as u64, Some(size)));
        found.extend(successes);
    }
    (found, calls)
}

#[test]
fn test_generic_dezoomer() {
    let uri = "{{X}},{{Y}}".to_string();
    let mut lvl = GenericDezoomer {}
        .zoom_levels(&DezoomerInput { uri, contents: None })
        .unwrap()
        .into_iter()
        .next()
        .unwrap();

    let existing_tiles = vec!["0,0", "1,0", "2,0", "0,1", "1,1", "2,1"];

    let mut all_tiles = vec![];
    let mut previous = None;
    loop {
        let tiles = lvl.next_tiles(previous);
        if tiles.is_empty() {
            break;
        }
        let count = tiles.len() as u64;
        let successes: Vec<_> = tiles
            .into_iter()
            .filter(|t| existing_tiles.contains(&t.url.as_str()))
            .collect();
        let res = TileFetchResult {
            count,
            successes: successes.len() as u64,
            tile_size: Some(Vec2d { x: 4, y: 5 }),
        };
        all_tiles.extend(successes);
        previous = Some(res);
    }

    assert_eq!(all_tiles, vec![
        TileReference { url: "0,0".into(), position: Vec2d { x: 0, y: 0 } },
        TileReference { url: "1,0".into(), position: Vec2d { x: 4, y: 0 } },
        TileReference { url: "2,0".into(), position: Vec2d { x: 8, y: 0 } },
        TileReference { url: "0,1".into(), position: Vec2d { x: 0, y: 5 } },
        TileReference { url: "1,1".into(), position: Vec2d { x: 4, y: 5 } },
        TileReference { url: "2,1".into(), position: Vec2d { x: 8, y: 5 } },
    ])
}

#[test]
fn rectangle_is_found_exactly() {
    let (w, h) = (4u32, 3u32);
    let mut existing = vec![];
    for y in 0..h {
        for x in 0..w {
            existing.push(format!("t{}_{}", x, y));
        }
    }
    let mut lvl = level_for("t{{X}}_{{Y}}");
    let (found, calls) = drive(&mut lvl, &existing, Vec2d { x: 10, y: 20 });
    assert_eq!(urls(&found), existing);
    assert_eq!(found.len(), (w * h) as usize);
    assert_eq!(found[5].position, Vec2d { x: 10, y: 20 });
    assert_eq!(lvl.stage, Stage::NextLines { max_x: w - 1, current_y: h });
    assert_eq!(calls as u32, w + h + 2);
}

#[test]
fn first_probe_fails() {
    let mut lvl = level_for("img/{{X}}/{{Y}}.jpg");
    let first = lvl.next_tiles(None);
    assert_eq!(first, vec![TileReference { url: "img/0/0.jpg".into(), position: Vec2d { x: 0, y: 0 } }]);
    let second = lvl.next_tiles(Some(outcome(1, 0, None)));
    assert!(second.is_empty());
}

#[test]
fn single_tile_image() {
    let mut lvl = level_for("{{X}}-{{Y}}");
    let size = Some(Vec2d { x: 256, y: 128 });
    assert_eq!(urls(&lvl.next_tiles(None)), vec!["0-0"]);
    let second = lvl.next_tiles(Some(outcome(1, 1, size)));
    assert_eq!(second, vec![TileReference { url: "1-0".into(), position: Vec2d { x: 256, y: 0 } }]);
    let third = lvl.next_tiles(Some(outcome(1, 0, None)));
    assert_eq!(lvl.stage, Stage::NextLines { max_x: 0, current_y: 1 });
    assert_eq!(third, vec![TileReference { url: "0-1".into(), position: Vec2d { x: 0, y: 128 } }]);
    let fourth = lvl.next_tiles(Some(outcome(1, 0, None)));
    assert!(fourth.is_empty());
}

#[test]
fn tile_size_is_kept_from_first_success() {
    let mut lvl = level_for("{{X}}:{{Y}}");
    lvl.next_tiles(None);
    lvl.next_tiles(Some(outcome(1, 1, Some(Vec2d { x: 3, y: 7 }))));
    let next = lvl.next_tiles(Some(outcome(1, 1, Some(Vec2d { x: 100, y: 100 }))));
    assert_eq!(next[0].position, Vec2d { x: 6, y: 0 });
    let row = lvl.next_tiles(Some(outcome(1, 0, Some(Vec2d { x: 50, y: 50 }))));
    assert_eq!(urls(&row), vec!["0:1", "1:1"]);
    assert_eq!(row[1].position, Vec2d { x: 3, y: 7 });
    assert_eq!(lvl.tile_size, Some(Vec2d { x: 3, y: 7 }));
}

#[test]
fn unknown_size_places_at_origin() {
    let lvl = level_for("{{X}}/{{Y}}");
    let t = lvl.tile_ref_at(5, 9);
    assert_eq!(t.url, "5/9");
    assert_eq!(t.position, Vec2d { x: 0, y: 0 });
}

#[test]
fn url_replaces_every_placeholder() {
    let lvl = ZoomLevel::new("a{{X}}b{{Y}}c{{X}}".to_string());
    assert_eq!(lvl.tile_url_at(12, 345), "a12b345c12");
    assert_eq!(lvl.tile_url_at(4294967295, 0), "a4294967295b0c4294967295");
}

#[test]
fn template_without_column_placeholder_is_refused() {
    let r = GenericDezoomer {}.zoom_levels(&DezoomerInput { uri: "http://x/{{Y}}".into(), contents: None });
    assert!(matches!(r, Err(DezoomerError::WrongDezoomer { ref name }) if name == "generic"));
}

#[test]
fn names() {
    assert_eq!(GenericDezoomer {}.name(), "generic");
    assert_eq!(level_for("u{{X}}").name(), "Generic image with template u{{X}}");
}

#[test]
fn batch_success_needs_all_tiles_and_a_size() {
    assert!(outcome(3, 3, Some(Vec2d { x: 1, y: 1 })).is_success());
    assert!(!outcome(3, 2, Some(Vec2d { x: 1, y: 1 })).is_success());
    assert!(!outcome(3, 3, None).is_success());
}

#[test]
fn vector_arithmetic() {
    let a = Vec2d { x: 3, y: 4 };
    let b = Vec2d { x: 5, y: 6 };
    assert_eq!(a.times(b), Vec2d { x: 15, y: 24 });
    assert_eq!(a.plus(b), Vec2d { x: 8, y: 10 });
}
