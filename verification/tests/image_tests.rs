use loader::image::bytes_to_usize;
use loader::image::encode_image;
use loader::image::extract_apps;
use loader::image::extract_record;
use loader::image::ImageHeader;
use loader::LoaderError;

#[test]
fn two_apps_scenario() {
    // image = [0x00,0x02, 0x00,0x03,'A','B','C', 0x00,0x02,'X','Y'], W=2
    let image: Vec<u8> = vec![0x00, 0x02, 0x00, 0x03, b'A', b'B', b'C', 0x00, 0x02, b'X', b'Y'];
    let header = ImageHeader::new(2, 0);
    assert_eq!(header.read(&image), 2);
    let (recs, end) = extract_apps(&image, 2).unwrap();
    assert_eq!(recs.len(), 2);
    assert_eq!(recs[0].length_bytes, 3);
    assert_eq!(recs[0].content(&image), b"ABC");
    assert_eq!(recs[1].length_bytes, 2);
    assert_eq!(recs[1].content(&image), b"XY");
    assert_eq!(end, image.len());
}

#[test]
fn zero_length_payload() {
    // a record of length zero is legal: empty content, cursor advances by W
    let image: Vec<u8> = vec![0x00, 0x01, 0x00, 0x00];
    let (rec, next) = extract_record(&image, 2, 2).unwrap();
    assert_eq!(rec.length_bytes, 0);
    assert_eq!(rec.content(&image), b"");
    assert_eq!(next, 4);
    let (recs, end) = extract_apps(&image, 2).unwrap();
    assert_eq!(recs.len(), 1);
    assert_eq!(recs[0].content(&image), b"");
    assert_eq!(end, 4);
}

#[test]
fn round_trip_many_widths() {
    let payloads: Vec<Vec<u8>> = vec![b"hello".to_vec(), vec![], b"world!".to_vec(), vec![0xff]];
    for w in 1..=8usize {
        let image = encode_image(w, &payloads).unwrap();
        let header = ImageHeader::new(w, 0);
        assert_eq!(header.read(&image), payloads.len() as u64);
        let (recs, end) = extract_apps(&image, w).unwrap();
        assert_eq!(recs.len(), payloads.len());
        for (k, p) in payloads.iter().enumerate() {
            assert_eq!(recs[k].content(&image), p.as_slice());
        }
        assert_eq!(end, image.len(), "exactly packed image: cursor lands at the end");
    }
}

#[test]
fn encode_rejects_oversized_length_field() {
    // width 1: a payload of 256 bytes cannot state its length
    let payloads: Vec<Vec<u8>> = vec![vec![7u8; 256]];
    assert!(encode_image(1, &payloads).is_none());
    let fits: Vec<Vec<u8>> = vec![vec![7u8; 255]];
    assert!(encode_image(1, &fits).is_some());
}

#[test]
fn truncated_images_are_malformed() {
    // count says two apps but only one record follows
    let image: Vec<u8> = vec![0x00, 0x02, 0x00, 0x01, b'A'];
    assert_eq!(extract_apps(&image, 2).unwrap_err(), LoaderError::MalformedImage);
    // length field runs past the image end
    let image2: Vec<u8> = vec![0x00, 0x01, 0x00, 0x09, b'A'];
    assert_eq!(extract_apps(&image2, 2).unwrap_err(), LoaderError::MalformedImage);
    // image shorter than the count field
    let image3: Vec<u8> = vec![0x00];
    assert_eq!(extract_apps(&image3, 2).unwrap_err(), LoaderError::MalformedImage);
}

#[test]
fn big_endian_word() {
    let bytes: Vec<u8> = vec![0x01, 0x02, 0x03, 0x04, 0x05, 0x06, 0x07, 0x08, 0xaa];
    assert_eq!(bytes_to_usize(&bytes), 0x0102030405060708usize);
}
