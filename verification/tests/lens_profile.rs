use telemetry_parser::lens_profile::{
    default_output_dimension, lens_mode, mapx_slot, mapy_slot, read_names, read_resolution, slots_mapx, slots_mapy, NamesValue,
    ResolutionValue,
};

fn names(v: &[&str]) -> Option<Vec<String>> {
    Some(v.iter().map(|s| s.to_string()).collect())
}

#[test]
fn horizontal_slots_by_name() {
    assert_eq!(mapx_slot("x1"), Some(0));
    assert_eq!(mapx_slot("x13"), Some(6));
    assert_eq!(mapx_slot("x1y2"), Some(7));
    assert_eq!(mapx_slot("y1"), None);
}

#[test]
fn vertical_slots_by_name() {
    assert_eq!(mapy_slot("y1"), Some(0));
    assert_eq!(mapy_slot("y1x2"), Some(3));
    assert_eq!(mapy_slot("y1x4"), Some(5));
    assert_eq!(mapy_slot("x1"), None);
}

#[test]
fn superview_horizontal_coefficients_are_sequential() {
    let out = slots_mapx(&[1.5f64, -0.25, 0.125], None, 0.0);
    assert_eq!(out, vec![1.5, -0.25, 0.125, 0.0, 0.0, 0.0, 0.0, 0.0]);
}

#[test]
fn horizontal_coefficients_follow_their_names() {
    let out = slots_mapx(&[2.0f64, 3.0, 4.0], names(&["x1", "x1y2", "bogus"]), 0.0);
    assert_eq!(out, vec![2.0, 0.0, 4.0, 0.0, 0.0, 0.0, 0.0, 3.0]);
}

#[test]
fn surplus_horizontal_coefficients_go_to_the_last_slot() {
    let values: Vec<i32> = (1..=10).collect();
    let out = slots_mapx(&values, None, 0);
    assert_eq!(out, vec![1, 2, 3, 4, 5, 6, 7, 10]);
}

#[test]
fn hyperview_vertical_layout() {
    let out = slots_mapy(&[1.0f64, 2.0, 3.0, 4.0], None, 0.0);
    assert_eq!(out, vec![1.0, 2.0, 0.0, 3.0, 0.0, 4.0]);
}

#[test]
fn superview_vertical_layout_and_names() {
    let out = slots_mapy(&[1, 2, 3, 4, 5, 6], None, 0);
    assert_eq!(out, vec![1, 2, 3, 4, 5, 6]);
    let out = slots_mapy(&[7, 8], names(&["y1x4", "y3"]), 0);
    assert_eq!(out, vec![0, 8, 0, 0, 0, 7]);
}

#[test]
fn output_crop_to_sixteen_by_nine() {
    assert_eq!(default_output_dimension(5312, 3984), (5312, 2988));
    assert_eq!(default_output_dimension(3840, 2160), (3840, 2160));
    assert_eq!(default_output_dimension(4000, 3000), (4000, 2250));
    assert_eq!(default_output_dimension(100, 57), (100, 57));
    assert_eq!(default_output_dimension(100, 58), (100, 56));
}

#[test]
fn calibration_resolution() {
    assert_eq!(read_resolution(&ResolutionValue::U16(vec![5312, 3984])), Some((5312, 3984)));
    assert_eq!(read_resolution(&ResolutionValue::I32(vec![-1, 3984])), None);
    assert_eq!(read_resolution(&ResolutionValue::U32(vec![4000])), None);
    assert_eq!(read_resolution(&ResolutionValue::I16(vec![1920, 1080, 7])), Some((1920, 1080)));
}

#[test]
fn coefficient_names() {
    let list = NamesValue::List(vec![" X1 ".to_string(), "x3".to_string()]);
    assert_eq!(read_names(&list), vec!["x1".to_string(), "x3".to_string()]);
    let text = NamesValue::Text("Y1, y3,,Y1X2\ty1x4 ".to_string());
    assert_eq!(read_names(&text), vec!["y1".to_string(), "y3".to_string(), "y1x2".to_string(), "y1x4".to_string()]);
    assert_eq!(read_names(&NamesValue::Text(" , ".to_string())), Vec::<String>::new());
}

#[test]
fn lens_modes_by_vfov() {
    assert_eq!(lens_mode(Some("S")), "Superview");
    assert_eq!(lens_mode(Some("H")), "Hyperview");
    assert_eq!(lens_mode(Some("W")), "Wide");
    assert_eq!(lens_mode(Some("L")), "Linear");
    assert_eq!(lens_mode(Some("N")), "Narrow");
    assert_eq!(lens_mode(Some("M")), "Medium");
    assert_eq!(lens_mode(Some("X")), "Max SuperView");
    assert_eq!(lens_mode(Some("Q")), "");
    assert_eq!(lens_mode(None), "");
}
