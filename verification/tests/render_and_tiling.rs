use dense_matrix::Matrix;
use dense_matrix::MatrixError;
use dense_matrix::TiledMatrix;

#[test]
fn test_matrix_tiling() -> Result<(), MatrixError> {
    let matrix = Matrix::new(vec![
        vec![1, 2, 3, 4],
        vec![5, 6, 7, 8],
        vec![9, 10, 11, 12],
        vec![13, 14, 15, 16],
    ])?;

    let tiled_matrix = matrix.split_into_tiles(2)?;

    // Check dimensions
    assert_eq!(tiled_matrix.tiles.len(), 2);
    assert_eq!(tiled_matrix.tiles[0].len(), 2);

    let expected_tiles = vec![
        vec![
            Matrix::new(vec![vec![1, 2], vec![5, 6]])?,
            Matrix::new(vec![vec![3, 4], vec![7, 8]])?,
        ],
        vec![
            Matrix::new(vec![vec![9, 10], vec![13, 14]])?,
            Matrix::new(vec![vec![11, 12], vec![15, 16]])?,
        ],
    ];

    assert_eq!(tiled_matrix.tiles, expected_tiles);

    Ok(())
}

#[test]
fn tiling_reassembles_to_the_source() -> Result<(), MatrixError> {
    let matrix: Matrix<i32> = Matrix::new(vec![
        vec![1, 2, 3, 4, 5, 6],
        vec![7, 8, 9, 10, 11, 12],
        vec![13, 14, 15, 16, 17, 18],
        vec![19, 20, 21, 22, 23, 24],
    ])?;
    let tile_size = 2;
    let tiled = matrix.split_into_tiles(tile_size)?;

    let mut rebuilt: Vec<Vec<i32>> = Vec::new();
    for band in &tiled.tiles {
        for rwt in 0..tile_size {
            let mut row: Vec<i32> = Vec::new();
            for tile in band {
                for value in &tile.data()[rwt] {
                    row.push(*value);
                }
            }
            rebuilt.push(row);
        }
    }
    assert_eq!(&rebuilt, matrix.data());
    Ok(())
}

#[test]
fn tiling_rejects_zero_tile_size() -> Result<(), MatrixError> {
    let matrix: Matrix<i32> = Matrix::new(vec![vec![1, 2], vec![3, 4]])?;
    match matrix.split_into_tiles(0) {
        Err(MatrixError::InvalidDimensions(msg)) => {
            assert_eq!(msg, "Tile size must be positive: got 0");
        }
        _ => panic!("a zero tile size must be refused"),
    }
    Ok(())
}

#[test]
fn tiling_rejects_non_divisible_dimensions() -> Result<(), MatrixError> {
    let matrix: Matrix<i32> = Matrix::new(vec![
        vec![1, 2, 3, 4],
        vec![5, 6, 7, 8],
        vec![9, 10, 11, 12],
        vec![13, 14, 15, 16],
        vec![17, 18, 19, 20],
    ])?;
    match matrix.split_into_tiles(2) {
        Err(MatrixError::InvalidDimensions(msg)) => {
            assert_eq!(
                msg,
                "Matrix dimensions must be divisible by tile size: 5x4 matrix, tile size 2"
            );
        }
        _ => panic!("non-divisible dimensions must be refused"),
    }
    Ok(())
}

#[test]
fn flat_rendering_matches_the_documented_layout() -> Result<(), MatrixError> {
    let m: Matrix<i32> = Matrix::new(vec![vec![1, 2], vec![3, 4]])?;
    assert_eq!(m.to_display_string(), "[[ 1, 2],\n [ 3, 4]]\n");

    let wide = Matrix::new(vec![vec![100, 2], vec![3, 4]])?;
    assert_eq!(wide.to_display_string(), "[[100,  2],\n [  3,  4]]\n");

    let negative = Matrix::new(vec![vec![-5, 2], vec![3, 4]])?;
    assert_eq!(negative.to_display_string(), "[[-5, 2],\n [ 3, 4]]\n");

    let single = Matrix::new(vec![vec![7]])?;
    assert_eq!(single.to_display_string(), "[[ 7]]\n");
    Ok(())
}

#[test]
fn rendering_is_deterministic() -> Result<(), MatrixError> {
    let m: Matrix<i64> = Matrix::new(vec![vec![12, -3, 4], vec![5, 600, 7]])?;
    assert_eq!(m.to_display_string(), m.to_display_string());

    let tiled = Matrix::new(vec![vec![1, 2], vec![3, 4]])?.split_into_tiles(1)?;
    assert_eq!(tiled.to_display_string(), tiled.to_display_string());
    Ok(())
}

#[test]
fn column_width_is_longest_text_with_minimum_two() -> Result<(), MatrixError> {
    let narrow: Matrix<i32> = Matrix::new(vec![vec![1, 2], vec![3, 4]])?;
    assert_eq!(narrow.column_width(), 2);

    let wide = Matrix::new(vec![vec![1, 2345], vec![3, 4]])?;
    assert_eq!(wide.column_width(), 4);

    let negative = Matrix::new(vec![vec![1, -234], vec![3, 4]])?;
    assert_eq!(negative.column_width(), 4);

    let tiled: TiledMatrix<i32> =
        Matrix::new(vec![vec![1, 2], vec![3, 4000]])?.split_into_tiles(2)?;
    assert_eq!(tiled.column_width(), 4);
    Ok(())
}

#[test]
fn tiled_rendering_matches_the_documented_layout() -> Result<(), MatrixError> {
    let matrix: Matrix<i32> = Matrix::new(vec![
        vec![1, 2, 3, 4],
        vec![5, 6, 7, 8],
        vec![9, 10, 11, 12],
        vec![13, 14, 15, 16],
    ])?;
    let tiled = matrix.split_into_tiles(2)?;
    let expected = "+======+======+\n\
                    |  1  2|  3  4|\n\
                    |  5  6|  7  8|\n\
                    +------+------+\n\
                    |  9 10| 11 12|\n\
                    | 13 14| 15 16|\n\
                    +======+======+\n";
    assert_eq!(tiled.to_display_string(), expected);
    Ok(())
}
