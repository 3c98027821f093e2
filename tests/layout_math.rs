use ekc::layout::{dispatch_size, padded_bytes_per_row, strip_padding, workgroup_count};

#[test]
fn padded_stride_is_aligned_and_minimal() {
    for width in [1u32, 3, 16, 17, 255, 256, 257, 4096] {
        let p = padded_bytes_per_row(width);
        assert!(p >= width * 4);
        assert_eq!(p % 256, 0);
        assert!(p < width * 4 + 256);
    }
}

#[test]
fn padded_stride_exact_values() {
    assert_eq!(padded_bytes_per_row(1), 256);
    assert_eq!(padded_bytes_per_row(64), 256);
    assert_eq!(padded_bytes_per_row(65), 512);
    assert_eq!(padded_bytes_per_row(257), 1280);
    assert_eq!(padded_bytes_per_row(4096), 16384);
    assert_eq!(padded_bytes_per_row(0), 0);
}

#[test]
fn strip_padding_restores_packed_rows() {
    for width in [1u32, 3, 16, 17, 255, 256, 257] {
        let height = 3u32;
        let row = (width * 4) as usize;
        let stride = padded_bytes_per_row(width) as usize;
        let pixels: Vec<u8> = (0..row * height as usize).map(|i| (i % 253) as u8).collect();
        let mut padded = vec![0xAAu8; stride * height as usize];
        for r in 0..height as usize {
            padded[r * stride..r * stride + row].copy_from_slice(&pixels[r * row..(r + 1) * row]);
        }
        assert_eq!(strip_padding(&padded, width, height), pixels);
    }
}

#[test]
fn workgroups_cover_minimally() {
    assert_eq!(workgroup_count(17, 16), 2);
    assert_eq!(workgroup_count(16, 16), 1);
    assert_eq!(workgroup_count(1, 16), 1);
    assert_eq!(workgroup_count(0, 16), 0);
    assert_eq!(workgroup_count(u32::MAX, 16), 268_435_456);
    for w in [1u32, 15, 16, 17, 31, 32, 33, 1000] {
        for h in [1u32, 16, 17, 100] {
            let (gx, gy) = dispatch_size(w, h);
            assert!(gx * 16 >= w && (gx - 1) * 16 < w);
            assert!(gy * 16 >= h && (gy - 1) * 16 < h);
        }
    }
    assert_eq!(dispatch_size(17, 33), (2, 3));
}
