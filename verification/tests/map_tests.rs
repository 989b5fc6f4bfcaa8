use tilemap::{
    atlas_sampling, derive_sibling_path, metadata_from_file, MapData, MapError, MapMetaData, Num,
    Sampling, Tile,
};

fn num(s: &str) -> Num {
    Num::from_text(s).expect("valid number token")
}

fn tile(x: &str, y: &str, w: &str, h: &str) -> Tile {
    Tile { x: num(x), y: num(y), w: num(w), h: num(h) }
}

fn sample_data() -> MapData {
    MapData {
        meta: MapMetaData { tile_width: num("16"), tile_height: num("24.5") },
        tiles: vec![
            tile("0", "0", "16", "16"),
            tile("16", "0", "16", "16"),
            tile("-8", "3.5", "1e2", "0.25"),
        ],
    }
}

#[test]
fn round_trip_preserves_value() {
    let data = sample_data();
    let text = data.to_json();
    let back = MapData::from_json(&text).expect("canonical text parses");
    assert_eq!(back, sample_data());
}

#[test]
fn round_trip_empty_tile_list() {
    let data = MapData {
        meta: MapMetaData { tile_width: num("8"), tile_height: num("8") },
        tiles: vec![],
    };
    let text = data.to_json();
    assert_eq!(text, "{\"meta\":{\"tileWidth\":8,\"tileHeight\":8},\"tiles\":[]}");
    let back = MapData::from_json(&text).expect("canonical text parses");
    assert_eq!(back.tiles.len(), 0);
}

#[test]
fn to_json_exact_text() {
    let data = MapData {
        meta: MapMetaData { tile_width: num("16"), tile_height: num("16") },
        tiles: vec![tile("0", "0", "16", "16")],
    };
    assert_eq!(
        data.to_json(),
        "{\"meta\":{\"tileWidth\":16,\"tileHeight\":16},\"tiles\":[{\"x\":0,\"y\":0,\"w\":16,\"h\":16}]}"
    );
}

#[test]
fn tile_order_is_preserved() {
    let text = "{\"meta\":{\"tileWidth\":16,\"tileHeight\":16},\"tiles\":[\
                {\"x\":1,\"y\":0,\"w\":16,\"h\":16},\
                {\"x\":2,\"y\":0,\"w\":16,\"h\":16},\
                {\"x\":3,\"y\":0,\"w\":16,\"h\":16}]}";
    let data = MapData::from_json(text).expect("document parses");
    assert_eq!(data.tiles.len(), 3);
    assert_eq!(data.tiles[0].x.as_str(), "1");
    assert_eq!(data.tiles[1].x.as_str(), "2");
    assert_eq!(data.tiles[2].x.as_str(), "3");
}

#[test]
fn whitespace_between_tokens_is_accepted() {
    let text = "{ \"meta\" : { \"tileWidth\" : 16 , \"tileHeight\" : 16 } ,\n\t\"tiles\" : [ { \"x\" : 0 , \"y\" : 0 , \"w\" : 16 , \"h\" : 16 } ] }\n";
    let data = MapData::from_json(text).expect("document with whitespace parses");
    assert_eq!(data.tiles.len(), 1);
    assert_eq!(data.meta.tile_width.as_str(), "16");
}

#[test]
fn end_to_end_base_document() {
    let text = "{\"meta\":{\"tileWidth\":16,\"tileHeight\":16},\"tiles\":[{\"x\":0,\"y\":0,\"w\":16,\"h\":16}]}";
    let data = MapData::from_json(text).expect("document parses");
    let width: f64 = data.meta.tile_width.as_str().parse().unwrap();
    assert_eq!(width, 16.0);
    assert_eq!(data.tiles.len(), 1);
}

#[test]
fn tile_missing_w_is_malformed() {
    let text = "{\"meta\":{\"tileWidth\":16,\"tileHeight\":16},\"tiles\":[{\"x\":0,\"y\":0,\"h\":16}]}";
    assert_eq!(MapData::from_json(text), Err(MapError::MalformedAsset));
}

#[test]
fn missing_meta_is_malformed() {
    let text = "{\"tiles\":[]}";
    assert_eq!(MapData::from_json(text), Err(MapError::MalformedAsset));
}

#[test]
fn missing_tiles_is_malformed() {
    let text = "{\"meta\":{\"tileWidth\":16,\"tileHeight\":16}}";
    assert_eq!(MapData::from_json(text), Err(MapError::MalformedAsset));
}

#[test]
fn trailing_garbage_is_malformed() {
    let text = "{\"meta\":{\"tileWidth\":16,\"tileHeight\":16},\"tiles\":[]} x";
    assert_eq!(MapData::from_json(text), Err(MapError::MalformedAsset));
}

#[test]
fn empty_text_is_malformed() {
    assert_eq!(MapData::from_json(""), Err(MapError::MalformedAsset));
}

#[test]
fn absent_metadata_file_is_asset_not_found() {
    assert_eq!(metadata_from_file(None), Err(MapError::AssetNotFound));
}

#[test]
fn present_metadata_file_is_parsed() {
    let text = "{\"meta\":{\"tileWidth\":16,\"tileHeight\":16},\"tiles\":[]}";
    let data = metadata_from_file(Some(text)).expect("document parses");
    assert_eq!(data.meta.tile_height.as_str(), "16");
}

#[test]
fn number_tokens_accepted() {
    for ok in ["0", "16", "-8", "0.25", "-0.5", "1e9", "2.5E-3", "10e+2", "123.456"] {
        assert!(Num::from_text(ok).is_some(), "{} should be accepted", ok);
    }
}

#[test]
fn number_tokens_rejected() {
    for bad in ["", "01", "1.", ".5", "+1", "--1", "1e", "1e+", "1.2.3", "16 ", "a", "-"] {
        assert!(Num::from_text(bad).is_none(), "{} should be rejected", bad);
    }
}

#[test]
fn malformed_number_in_document_is_malformed() {
    let text = "{\"meta\":{\"tileWidth\":01,\"tileHeight\":16},\"tiles\":[]}";
    assert_eq!(MapData::from_json(text), Err(MapError::MalformedAsset));
}

#[test]
fn sibling_path_without_extension() {
    assert_eq!(derive_sibling_path("base", "json"), "base.json");
    assert_eq!(derive_sibling_path("base", "png"), "base.png");
}

#[test]
fn sibling_path_replaces_extension() {
    assert_eq!(derive_sibling_path("maps/level.map", "png"), "maps/level.png");
    assert_eq!(derive_sibling_path("a.b.c", "png"), "a.b.png");
}

#[test]
fn sibling_path_ignores_dot_in_directory() {
    assert_eq!(derive_sibling_path("dir.d/file", "json"), "dir.d/file.json");
}

#[test]
fn sibling_path_keeps_hidden_file_name() {
    assert_eq!(derive_sibling_path(".hidden", "json"), ".hidden.json");
}

#[test]
fn atlas_sampling_is_nearest() {
    assert_eq!(atlas_sampling(), Sampling::Nearest);
}

#[test]
fn error_messages() {
    assert_eq!(MapError::AssetNotFound.message(), "asset not found");
    assert_eq!(MapError::MalformedAsset.message(), "malformed asset");
    assert_eq!(MapError::DecodeError.message(), "decode error");
}

#[test]
fn data_equality_detects_differences() {
    let a = sample_data();
    let mut b = sample_data();
    assert_eq!(a, b);
    b.tiles.pop();
    assert_ne!(a, b);
    let mut c = sample_data();
    c.meta.tile_width = num("17");
    assert_ne!(a, c);
}
