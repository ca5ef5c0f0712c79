use akimbo_ip::octets::{encode, octets};
use akimbo_ip::text::{ipv4_text_of, to_text4};

fn ip(a: u8, b: u8, c: u8, d: u8) -> u32 {
    encode(a, b, c, d)
}

fn parse_back(text: &str) -> u32 {
    let parts: Vec<&str> = text.split('.').collect();
    assert_eq!(parts.len(), 4);
    let mut v: u32 = 0;
    for p in parts {
        assert!(!p.is_empty() && p.len() <= 3);
        if p.len() > 1 {
            assert!(!p.starts_with('0'));
        }
        let octet: u32 = p.parse().expect("decimal octet");
        assert!(octet <= 255);
        v = (v << 8) | octet;
    }
    v
}

#[test]
fn octets_roundtrip_samples() {
    let samples: Vec<u32> = vec![0, 1, 255, 256, 16777216, 0x7F000001, 0xC0A80101, 0xFFFFFFFF];
    for &v in &samples {
        let (a, b, c, d) = octets(v);
        assert_eq!(encode(a, b, c, d), v);
    }
    assert_eq!(octets(ip(192, 168, 1, 1)), (192, 168, 1, 1));
}

#[test]
fn scalar_text_samples() {
    assert_eq!(ipv4_text_of(0), b"0.0.0.0".to_vec());
    assert_eq!(ipv4_text_of(ip(127, 0, 0, 1)), b"127.0.0.1".to_vec());
    assert_eq!(ipv4_text_of(ip(255, 255, 255, 255)), b"255.255.255.255".to_vec());
    assert_eq!(ipv4_text_of(ip(1, 0, 0, 0)), b"1.0.0.0".to_vec());
    assert_eq!(ipv4_text_of(ip(10, 42, 200, 9)), b"10.42.200.9".to_vec());
}

#[test]
fn render_two_addresses() {
    let batch: Vec<u32> = vec![16777216, 4294967295];
    let (data, offsets) = to_text4(&batch);
    assert_eq!(data, b"1.0.0.0255.255.255.255".to_vec());
    assert_eq!(offsets, vec![0, 7, 22]);
}

#[test]
fn render_offsets_invariant_and_parse_back() {
    let batch: Vec<u32> = vec![
        ip(0, 0, 0, 0),
        ip(8, 8, 8, 8),
        ip(192, 168, 1, 1),
        ip(255, 255, 255, 255),
        ip(100, 64, 0, 7),
        ip(224, 0, 0, 1),
    ];
    let (data, offsets) = to_text4(&batch);
    assert_eq!(offsets.len(), batch.len() + 1);
    assert_eq!(offsets[0], 0);
    for i in 0..batch.len() {
        assert!(offsets[i] <= offsets[i + 1]);
    }
    assert_eq!(offsets[batch.len()] as usize, data.len());
    for i in 0..batch.len() {
        let span = &data[offsets[i] as usize..offsets[i + 1] as usize];
        let text = std::str::from_utf8(span).expect("ascii");
        assert_eq!(parse_back(text), batch[i]);
    }
}

#[test]
fn empty_batch_render() {
    let batch: Vec<u32> = vec![];
    let (data, offsets) = to_text4(&batch);
    assert!(data.is_empty());
    assert_eq!(offsets, vec![0]);
}
