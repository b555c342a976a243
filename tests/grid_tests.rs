use tilegrid::dump::Format;
use tilegrid::grid::{Grid, Tile, Tilegrid};

fn two_by_two() -> Tilegrid {
    let mut g = Tilegrid::new(2, 2);
    g.set(0, 0, 1);
    g.set(1, 0, 2);
    g.set(0, 1, 3);
    g.set(1, 1, 4);
    g
}

#[test]
fn new_has_width_times_height_tiles() {
    let g = Tilegrid::new(3, 4);
    assert_eq!(g.width(), 3);
    assert_eq!(g.height(), 4);
    assert_eq!(g.get_all_tiles().len(), 12);
}

#[test]
fn zero_sized_grid_is_valid() {
    let g = Tilegrid::new(0, 5);
    assert_eq!(g.get_all_tiles().len(), 0);
    assert_eq!(g.get(0, 0), -1);
    assert_eq!(g.dump("csv"), "\n\n\n\n\n");
}

#[test]
fn new_grid_is_all_empty() {
    let g = Tilegrid::new(3, 2);
    for y in 0..2 {
        for x in 0..3 {
            assert_eq!(g.get(x, y), -1);
        }
    }
    assert!(g.get_all_tiles().iter().all(|&t| t == -1));
}

#[test]
fn set_then_get_round_trips() {
    let mut g = Tilegrid::new(3, 3);
    g.set(2, 1, 42);
    assert_eq!(g.get(2, 1), 42);
    assert_eq!(g.get_all_tiles()[1 * 3 + 2], 42);
    for y in 0..3 {
        for x in 0..3 {
            if (x, y) != (2, 1) {
                assert_eq!(g.get(x, y), -1);
            }
        }
    }
    g.set(0, 0, i32::MIN);
    assert_eq!(g.get(0, 0), i32::MIN);
    g.set(0, 0, i32::MAX);
    assert_eq!(g.get(0, 0), i32::MAX);
}

#[test]
fn get_outside_returns_sentinel() {
    let mut g = Tilegrid::new(2, 3);
    g.set(1, 2, 9);
    assert_eq!(g.get(2, 0), -1);
    assert_eq!(g.get(0, 3), -1);
    assert_eq!(g.get(100, 100), -1);
    assert_eq!(g.get(-1, 1), -1);
    assert_eq!(g.get(0, -1), -1);
    assert_eq!(g.get_all_tiles(), &[-1, -1, -1, -1, -1, 9]);
}

#[test]
fn set_outside_changes_nothing() {
    let mut g = two_by_two();
    g.set(2, 0, 7);
    g.set(0, 2, 7);
    g.set(-1, 1, 7);
    g.set(1, -1, 7);
    g.set(i32::MAX, i32::MAX, 7);
    assert_eq!(g.get_all_tiles(), &[1, 2, 3, 4]);
}

#[test]
fn set_tiles_writes_each_coordinate() {
    let mut g = Tilegrid::new(3, 2);
    g.set_tiles(&[(0, 0), (2, 1), (1, 0)], 5);
    assert_eq!(g.get_all_tiles(), &[5, 5, -1, -1, -1, 5]);
}

#[test]
fn set_tiles_skips_coordinates_outside() {
    let mut g = Tilegrid::new(2, 2);
    g.set_tiles(&[(3, 0), (0, 1), (-1, 0), (0, 9)], 8);
    assert_eq!(g.get_all_tiles(), &[-1, -1, 8, -1]);
    assert_eq!(g.get_all_tiles().len(), 4);
}

#[test]
fn csv_dump_of_two_by_two() {
    assert_eq!(two_by_two().dump("csv"), "1,2\n3,4\n");
}

#[test]
fn csv_dump_of_negative_values() {
    let mut g = Tilegrid::new(3, 1);
    g.set(1, 0, -2147483648);
    g.set(2, 0, 1234567890);
    assert_eq!(g.dump_csv(), "-1,-2147483648,1234567890\n");
}

#[test]
fn json_dump_of_two_by_two() {
    assert_eq!(
        two_by_two().dump("json"),
        "{\"width\":2,\"height\":2,\"tiles\":[[1,2],[3,4]]}"
    );
}

#[test]
fn json_dump_of_empty_grid() {
    assert_eq!(
        Tilegrid::new(0, 0).dump_json(),
        "{\"width\":0,\"height\":0,\"tiles\":[]}"
    );
    assert_eq!(
        Tilegrid::new(2, 1).dump_json(),
        "{\"width\":2,\"height\":1,\"tiles\":[[-1,-1]]}"
    );
}

#[test]
fn tmx_dump_of_two_by_two() {
    let text = two_by_two().dump("tmx");
    assert!(text.starts_with("<?xml version=\"1.0\" encoding=\"UTF-8\"?>\n"));
    assert!(text.contains("<map "));
    assert!(text.contains(" width=\"2\" height=\"2\""));
    assert!(text.contains("<layer name=\"tiles\" width=\"2\" height=\"2\">"));
    assert!(text.ends_with("</map>\n"));
    let open = "<data encoding=\"csv\">";
    let start = text.find(open).unwrap() + open.len();
    let end = text.find("</data>").unwrap();
    let ids: Vec<i64> = text[start..end]
        .split(',')
        .map(|t| t.trim().parse::<i64>().unwrap())
        .collect();
    let values: Vec<i64> = ids.iter().map(|id| id - 1).collect();
    assert_eq!(values, vec![1, 2, 3, 4]);
}

#[test]
fn tmx_dump_exact_text() {
    let mut g = Tilegrid::new(2, 2);
    g.set(1, 0, 0);
    g.set(0, 1, 6);
    let expected = "<?xml version=\"1.0\" encoding=\"UTF-8\"?>\n\
<map version=\"1.0\" orientation=\"orthogonal\" renderorder=\"right-down\" width=\"2\" height=\"2\" tilewidth=\"32\" tileheight=\"32\">\n \
<layer name=\"tiles\" width=\"2\" height=\"2\">\n  \
<data encoding=\"csv\">\n\
0,1,\n\
7,0\n\
</data>\n \
</layer>\n\
</map>\n";
    assert_eq!(g.dump_tmx(), expected);
}

#[test]
fn tmx_tags_are_balanced() {
    let text = Tilegrid::new(3, 2).dump("tmx");
    for tag in ["map", "layer", "data"] {
        assert_eq!(text.matches(&format!("<{} ", tag)).count(), 1);
        assert_eq!(text.matches(&format!("</{}>", tag)).count(), 1);
    }
    assert!(text.contains("0,0,0,\n0,0,0\n"));
}

#[test]
fn unknown_format_dumps_empty() {
    assert_eq!(two_by_two().dump("bogus"), "");
    assert_eq!(Tilegrid::new(0, 0).dump("bogus"), "");
    assert_eq!(two_by_two().dump(""), "");
    assert_eq!(two_by_two().dump("CSV"), "");
    assert_eq!(two_by_two().dump("json "), "");
}

#[test]
fn dump_twice_is_identical() {
    let g = two_by_two();
    for f in ["json", "tmx", "csv", "bogus"] {
        assert_eq!(g.dump(f), g.dump(f));
    }
}

#[test]
fn format_names() {
    assert_eq!(Format::from_name("json"), Some(Format::Json));
    assert_eq!(Format::from_name("tmx"), Some(Format::Tmx));
    assert_eq!(Format::from_name("csv"), Some(Format::Csv));
    assert_eq!(Format::from_name("xml"), None);
}

#[test]
fn plain_text_concatenates_rows() {
    assert_eq!(two_by_two().plain_text(), "12\n34\n");
}

#[test]
fn grid_name_is_the_same_type() {
    let g: Grid = Grid::new(1, 1);
    assert_eq!(g.dump("csv"), "-1\n");
    let t = Tile { value: -1 };
    assert_eq!(t, Tile { value: g.get(0, 0) });
}
