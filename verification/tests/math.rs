use bevy_3ds::math::{Mat4, Matrix4, Vec4};

fn counting() -> Mat4 {
    Mat4 {
        x_axis: Vec4 { x: 0, y: 1, z: 2, w: 3 },
        y_axis: Vec4 { x: 4, y: 5, z: 6, w: 7 },
        z_axis: Vec4 { x: 8, y: 9, z: 10, w: 11 },
        w_axis: Vec4 { x: 12, y: 13, z: 14, w: 15 },
    }
}

#[test]
fn host_matrix_lists_its_columns() {
    assert_eq!(
        counting().to_cols_array(),
        [0, 1, 2, 3, 4, 5, 6, 7, 8, 9, 10, 11, 12, 13, 14, 15]
    );
}

#[test]
fn gpu_matrix_lists_its_rows_last_column_first() {
    let gpu = Matrix4::from_mat4(&counting());
    assert_eq!(gpu.row0, Vec4 { x: 0, y: 4, z: 8, w: 12 });
    assert_eq!(gpu.row3, Vec4 { x: 3, y: 7, z: 11, w: 15 });
    assert_eq!(
        gpu.cells(),
        [12, 8, 4, 0, 13, 9, 5, 1, 14, 10, 6, 2, 15, 11, 7, 3]
    );
}

#[test]
fn matrix_goes_to_the_gpu_and_back() {
    let m = counting();
    assert_eq!(Matrix4::from_mat4(&m).to_mat4(), m);
    let cols = m.to_cols_array();
    let cells = Matrix4::from_mat4(&m).cells();
    for r in 0..4 {
        for c in 0..4 {
            assert_eq!(cells[4 * r + (3 - c)], cols[4 * c + r]);
        }
    }
}
