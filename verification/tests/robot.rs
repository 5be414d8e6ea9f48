use slowrx::mode_pd::ycbcr_to_rgb;
use slowrx::mode_robot::ChromaPlanes;

#[test]
fn rows_combine_chroma_of_two_radio_lines() {
    let mut planes = ChromaPlanes::new(2, 3);
    planes.store_line(0, &vec![10, 11]); // Cr of rows 0 and 1
    planes.store_line(1, &vec![20, 21]); // Cb of rows 1 and 2
    planes.store_line(2, &vec![30, 31]); // Cr of row 2 (no row 3)
    let y = vec![128, 64];
    assert_eq!(
        planes.compose_row(1, &y),
        vec![ycbcr_to_rgb(128, 10, 20), ycbcr_to_rgb(64, 11, 21)]
    );
    assert_eq!(
        planes.compose_row(2, &y),
        vec![ycbcr_to_rgb(128, 30, 20), ycbcr_to_rgb(64, 31, 21)]
    );
    // Row 0 never receives Cb.
    assert_eq!(
        planes.compose_row(0, &y),
        vec![ycbcr_to_rgb(128, 10, 0), ycbcr_to_rgb(64, 11, 0)]
    );
}
