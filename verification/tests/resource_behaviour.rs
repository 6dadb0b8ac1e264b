use s4::resource::bitstream::BitstreamReader;
use s4::resource::loader::{ResourceManager, ResourceMode};
use s4::resource::lzss::{LzssDecompressor, RleDecoder};

/// Packs bits, most significant first, seven to a byte in the byte's top
/// bits, as the LZSS stream reads them.
fn pack7(bits: &[u8]) -> Vec<u8> {
    let mut out = Vec::new();
    for chunk in bits.chunks(7) {
        let mut b = 0u8;
        for (i, &bit) in chunk.iter().enumerate() {
            if bit != 0 {
                b |= 0x80 >> i;
            }
        }
        out.push(b);
    }
    out
}

/// The gamma code of `v`: `k` ones, a zero, and `v - (2^k - 1) * 2` in
/// `k + 1` bits.
fn gamma(v: u32) -> Vec<u8> {
    let mut k = 0;
    while ((1u32 << (k + 1)) - 1) * 2 <= v {
        k += 1;
    }
    let suffix = v - ((1u32 << k) - 1) * 2;
    let mut bits = vec![1u8; k];
    bits.push(0);
    for i in (0..=k).rev() {
        bits.push(((suffix >> i) & 1) as u8);
    }
    bits
}

#[test]
fn gamma_codes_read_back() {
    let mut bits = Vec::new();
    for v in [0u32, 1, 2, 5, 65, 257, 1000] {
        bits.extend(gamma(v));
    }
    let mut d = LzssDecompressor::new(pack7(&bits));
    for v in [0i32, 1, 2, 5, 65, 257, 1000] {
        assert_eq!(d.gamma_read(), Some(v));
    }
}

#[test]
fn gamma_code_in_first_byte_reads_unary_plus_suffix() {
    // one 1 bit, a 0 bit, then the suffix 0b11: 2^2 - 2 + 3
    let mut d = LzssDecompressor::new(vec![0b1011_0000]);
    assert_eq!(d.gamma_read(), Some(5));
    // two 1 bits, a 0 bit, then the suffix 0b101: 2^3 - 2 + 5
    let mut d = LzssDecompressor::new(vec![0b1101_0100]);
    assert_eq!(d.gamma_read(), Some(11));
}

#[test]
fn gamma_read_at_end_of_stream_is_none() {
    let mut d = LzssDecompressor::new(vec![]);
    assert_eq!(d.gamma_read(), None);
    let mut d = LzssDecompressor::new(vec![0xFE]);
    assert_eq!(d.gamma_read(), None);
}

#[test]
fn decompress_literal_and_back_reference() {
    let mut bits = gamma(65);
    bits.extend(gamma(0x101));
    bits.extend(gamma(0));
    let mut d = LzssDecompressor::new(pack7(&bits));
    let mut out = Vec::new();
    assert!(d.decompress(&mut out, 4));
    assert_eq!(out, vec![65, 65, 65, 65]);
}

#[test]
fn decompress_repeats_a_short_window() {
    let mut bits = gamma(1);
    bits.extend(gamma(2));
    bits.extend(gamma(0x102));
    bits.extend(gamma(1));
    let mut d = LzssDecompressor::new(pack7(&bits));
    let mut out = Vec::new();
    assert!(d.decompress(&mut out, 6));
    assert_eq!(out, vec![1, 2, 1, 2, 1, 2]);
}

#[test]
fn decompress_rejects_reference_before_start() {
    let mut bits = gamma(0x101);
    bits.extend(gamma(0));
    let mut d = LzssDecompressor::new(pack7(&bits));
    let mut out = Vec::new();
    assert!(!d.decompress(&mut out, 3));
    assert!(out.is_empty());
}

#[test]
fn decompress_fails_when_input_runs_out() {
    let bits = gamma(7);
    let mut d = LzssDecompressor::new(pack7(&bits));
    let mut out = Vec::new();
    assert!(!d.decompress(&mut out, 3));
    assert_eq!(out, vec![7]);
}

#[test]
fn rle_literal_fills_and_references() {
    let data = [4u8, 4, 0x01, 0x02, 0x03, 0xC0, 0x35, 0x81];
    let mut dec = RleDecoder::new(&data);
    let mut out = Vec::new();
    assert!(dec.decode(&mut out));
    assert_eq!(out, vec![1, 2, 3, 1, 2, 3, 1, 5, 5, 5, 5, 5, 5]);
}

#[test]
fn rle_far_reference_on_short_output_copies_what_exists() {
    let data = [1u8, 1, 0x07, 0xC1];
    let mut dec = RleDecoder::new(&data);
    let mut out = Vec::new();
    assert!(dec.decode(&mut out));
    assert_eq!(out, vec![7, 7, 7, 7, 7]);
}

#[test]
fn rle_missing_header_fails() {
    let data = [9u8];
    let mut dec = RleDecoder::new(&data);
    let mut out = vec![42u8];
    assert!(!dec.decode(&mut out));
    assert_eq!(out, vec![42]);
}

#[test]
fn bit_reader_reads_top_bits_first() {
    let mut bytes = vec![0b1010_1010u8, 0b1100_0000];
    bytes.reverse();
    let mut source = move || bytes.pop();
    let mut r = BitstreamReader::new();
    assert_eq!(r.read_bits(4, &mut source), Some(0b1010));
    assert_eq!(r.read_bits(3, &mut source), Some(0b101));
    assert_eq!(r.read_bits(2, &mut source), Some(0b11));
    assert_eq!(r.read_bits(5, &mut source), Some(0));
    assert_eq!(r.read_bits(1, &mut source), None);
}

#[test]
fn bit_reader_single_bits() {
    let mut r = BitstreamReader::new();
    assert_eq!(r.read_bit(|| Some(0x80)), Some(true));
    assert_eq!(r.read_bit(|| None), Some(false));
    let mut empty = BitstreamReader::new();
    assert_eq!(empty.read_bit(|| None), None);
}

#[test]
fn resource_load_get_release() {
    let mut mgr = ResourceManager::new();
    assert!(mgr.load(7, "a.dat", Some(vec![1, 2, 3])));
    let h = mgr.get(7).unwrap();
    assert_eq!(h.data.as_deref(), Some(&[1u8, 2, 3][..]));
    assert_eq!(h.file_path.as_deref(), Some("a.dat"));
    assert_eq!(h.mode, ResourceMode::Disk);
    assert_eq!(h.decomp_param, 0);
    assert!(!mgr.load(8, "missing.dat", None));
    assert!(mgr.get(8).is_none());
    mgr.release(7);
    assert!(mgr.get(7).is_none());
}

#[test]
fn decoders_only_append_to_the_output() {
    let data = [2u8, 2, 0x13, 0x81];
    let mut dec = RleDecoder::new(&data);
    let mut out = vec![9u8, 8];
    assert!(dec.decode(&mut out));
    assert_eq!(out, vec![9, 8, 3, 3, 3, 3]);

    let mut bits = gamma(65);
    bits.extend(gamma(0x101));
    bits.extend(gamma(0));
    let mut d = LzssDecompressor::new(pack7(&bits));
    let mut out = vec![1u8, 2];
    assert!(d.decompress(&mut out, 4));
    assert_eq!(out, vec![1, 2, 65, 65, 65, 65]);
}

#[test]
fn decompress_of_nothing_succeeds_and_changes_nothing() {
    let mut d = LzssDecompressor::new(vec![]);
    let mut out = vec![5u8];
    assert!(d.decompress(&mut out, 0));
    assert_eq!(out, vec![5]);
}
