use commit_clock::glyph::glyph_bounds;

#[test]
fn bounds_of_a_colon() {
    let g = ["...", ".#.", ".#.", "...", ".#.", ".#.", "..."];
    assert_eq!(glyph_bounds(g), Some((1, 1)));
}

#[test]
fn bounds_span_all_rows() {
    let g = [".....", "..#..", ".....", "#....", ".....", "....#", "....."];
    assert_eq!(glyph_bounds(g), Some((0, 4)));
    let ragged = ["", "#", "", "", "", "", "...#"];
    assert_eq!(glyph_bounds(ragged), Some((0, 3)));
}

#[test]
fn blank_glyph_has_no_bounds() {
    let g = [".....", ".....", ".....", ".....", ".....", ".....", "....."];
    assert_eq!(glyph_bounds(g), None);
    assert_eq!(glyph_bounds(["", "", "", "", "", "", ""]), None);
}
