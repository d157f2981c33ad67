use dezoomify_rs::custom_yaml::{default_headers, CustomDezoomer, CustomYamlTiles};
use dezoomify_rs::dezoomer::{DezoomerError, DezoomerInput, TileFetchResult, TileReference, Vec2d};

fn tiles() -> Vec<TileReference> {
    vec![
        TileReference { url: "b.jpg".into(), position: Vec2d { x: 0, y: 0 } },
        TileReference { url: "a.jpg".into(), position: Vec2d { x: 10, y: 0 } },
        TileReference { url: "c.jpg".into(), position: Vec2d { x: 0, y: 10 } },
    ]
}

#[test]
fn all_tiles_once_then_nothing() {
    let mut conf = CustomYamlTiles::new(tiles(), None);
    assert_eq!(conf.next_tiles(None), tiles());
    let done = TileFetchResult { count: 3, successes: 3, tile_size: Some(Vec2d { x: 10, y: 10 }) };
    assert!(conf.next_tiles(Some(done)).is_empty());
    let failed = TileFetchResult { count: 3, successes: 0, tile_size: None };
    assert!(conf.next_tiles(Some(failed)).is_empty());
}

#[test]
fn has_default_user_agent() {
    let conf = CustomYamlTiles::new(vec![], None);
    assert!(conf.http_headers().iter().any(|(k, _)| k == "User-Agent"), "There should be a user agent");
    assert!(default_headers().iter().any(|(k, _)| k == "Accept"));
}

#[test]
fn given_headers_are_kept() {
    let h = vec![("Referer".to_string(), "http://example.com/".to_string())];
    let conf = CustomYamlTiles::new(tiles(), Some(h.clone()));
    assert_eq!(conf.http_headers(), h);
}

#[test]
fn gate_wants_a_configuration_file() {
    let mut d = CustomDezoomer::default();
    assert_eq!(d.name(), "custom");
    let wrong = d.document_bytes(&DezoomerInput { uri: "http://x/tiles.json".into(), contents: None });
    assert_eq!(wrong, Err(DezoomerError::WrongDezoomer { name: "custom".into() }));
    let needs = d.document_bytes(&DezoomerInput { uri: "http://x/tiles.yaml".into(), contents: None });
    assert_eq!(needs, Err(DezoomerError::NeedsData { uri: "http://x/tiles.yaml".into() }));
    let ok = d.document_bytes(&DezoomerInput { uri: "http://x/tiles.yaml".into(), contents: Some(b"k: v".to_vec()) });
    assert_eq!(ok, Ok(b"k: v".to_vec()));
}
