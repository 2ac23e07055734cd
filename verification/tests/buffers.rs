use pixelpipe::buffer::PixelBuffer;
use pixelpipe::pixel::Pixel;

#[test]
fn from_samples_rejects_wrong_length() {
    let samples = vec![Pixel::new(1, 2, 3, 4); 5];
    assert!(PixelBuffer::from_samples(2, 2, samples).is_none());
}

#[test]
fn from_samples_accepts_exact_length() {
    let samples = vec![Pixel::new(1, 2, 3, 4); 6];
    let buf = PixelBuffer::from_samples(3, 2, samples).unwrap();
    assert_eq!(buf.width, 3);
    assert_eq!(buf.height, 2);
    assert_eq!(buf.get(2, 1), Pixel::new(1, 2, 3, 4));
}

#[test]
fn new_filled_is_solid() {
    let buf = PixelBuffer::new_filled(3, 3, Pixel::new(7, 8, 9, 10));
    for y in 0..3 {
        for x in 0..3 {
            assert_eq!(buf.get(x, y), Pixel::new(7, 8, 9, 10));
        }
    }
}

#[test]
fn set_updates_one_cell() {
    let mut buf = PixelBuffer::new_filled(2, 2, Pixel::new(0, 0, 0, 0));
    buf.set(1, 0, Pixel::new(5, 6, 7, 8));
    assert_eq!(buf.get(1, 0), Pixel::new(5, 6, 7, 8));
    assert_eq!(buf.get(0, 0), Pixel::new(0, 0, 0, 0));
    assert_eq!(buf.get(0, 1), Pixel::new(0, 0, 0, 0));
    assert_eq!(buf.get(1, 1), Pixel::new(0, 0, 0, 0));
}

#[test]
fn raw_bytes_round_trip() {
    let samples = vec![
        Pixel::new(1, 2, 3, 4),
        Pixel::new(5, 6, 7, 8),
        Pixel::new(9, 10, 11, 12),
        Pixel::new(13, 14, 15, 16),
        Pixel::new(17, 18, 19, 20),
        Pixel::new(21, 22, 23, 24),
    ];
    let buf = PixelBuffer::from_samples(3, 2, samples).unwrap();
    let bytes = buf.to_raw_bytes();
    assert_eq!(bytes.len(), 24);
    assert_eq!(&bytes[0..8], &[1, 2, 3, 4, 5, 6, 7, 8]);
    let back = PixelBuffer::from_raw_bytes(3, 2, bytes).unwrap();
    for y in 0..2 {
        for x in 0..3 {
            assert_eq!(back.get(x, y), buf.get(x, y));
        }
    }
}

#[test]
fn from_raw_bytes_rejects_wrong_length() {
    assert!(PixelBuffer::from_raw_bytes(2, 2, vec![0u8; 15]).is_none());
}
