use deepx::ring_buffer::{push_line, push_u32, RingBuffer, LOG_BUFFER_SIZE};
use deepx::text::{
    ascii_string, bytes_as_str, hex_char, push_padded_left, push_padded_right,
    push_str_padded_right, u64_decimal, u64_hexadecimal, u64_lower_hexadecimal,
};
use deepx::utils::{format_size, format_size_bytes, u64_to_hex, u64_to_str, u8_to_hex};

fn contents(log: &RingBuffer) -> Vec<u8> {
    let mut out = vec![0u8; LOG_BUFFER_SIZE];
    let n = log.read_all(&mut out);
    out.truncate(n);
    out
}

#[test]
fn ring_buffer_starts_empty() {
    let rb = RingBuffer::new();
    assert_eq!(rb.get_pos(), 0);
    assert!(!rb.is_wrapped());
    assert_eq!(rb.get_buf().len(), LOG_BUFFER_SIZE);
    assert!(contents(&rb).is_empty());
}

#[test]
fn ring_buffer_push_and_read_back() {
    let mut rb = RingBuffer::new();
    rb.push_str("abc");
    rb.push_bytes(b"de");
    assert_eq!(contents(&rb), b"abcde".to_vec());
    assert_eq!(rb.get_pos(), 5);
}

#[test]
fn ring_buffer_read_all_stops_at_output_length() {
    let mut rb = RingBuffer::new();
    rb.push_str("hello world");
    let mut out = [7u8; 5];
    let n = rb.read_all(&mut out);
    assert_eq!(n, 5);
    assert_eq!(&out, b"hello");
}

#[test]
fn ring_buffer_keeps_last_bytes_after_wrap() {
    let mut rb = RingBuffer::new();
    let block = vec![b'x'; LOG_BUFFER_SIZE - 2];
    rb.push_bytes(&block);
    rb.push_str("12345");
    assert!(rb.is_wrapped());
    assert_eq!(rb.get_pos(), 3);
    let c = contents(&rb);
    assert_eq!(c.len(), LOG_BUFFER_SIZE);
    assert_eq!(&c[LOG_BUFFER_SIZE - 5..], b"12345");
    assert_eq!(c[0], b'x');
}

#[test]
fn ring_buffer_pop_removes_last_byte() {
    let mut rb = RingBuffer::new();
    rb.push_str("ab");
    rb.pop();
    assert_eq!(contents(&rb), b"a".to_vec());
    rb.pop();
    rb.pop();
    assert!(contents(&rb).is_empty());
    assert_eq!(rb.get_pos(), 0);
}

#[test]
fn ring_buffer_pop_after_wrap_moves_to_end() {
    let mut rb = RingBuffer::new();
    let block = vec![b'y'; LOG_BUFFER_SIZE];
    rb.push_bytes(&block);
    assert!(rb.is_wrapped());
    assert_eq!(rb.get_pos(), 0);
    rb.pop();
    assert_eq!(rb.get_pos(), LOG_BUFFER_SIZE - 1);
    assert!(rb.is_wrapped());
    assert_eq!(rb.get_buf()[LOG_BUFFER_SIZE - 1], 0);
}

#[test]
fn ring_buffer_clear_resets() {
    let mut rb = RingBuffer::new();
    let block = vec![b'z'; LOG_BUFFER_SIZE + 10];
    rb.push_bytes(&block);
    rb.clear();
    assert_eq!(rb.get_pos(), 0);
    assert!(!rb.is_wrapped());
    assert!(contents(&rb).is_empty());
    assert!(rb.get_buf().iter().all(|b| *b == 0));
}

#[test]
fn ring_buffer_push_u32_and_line() {
    let mut rb = RingBuffer::new();
    push_u32(&mut rb, 0);
    push_u32(&mut rb, 4294967295);
    push_line(&mut rb, " end");
    assert_eq!(contents(&rb), b"04294967295 end\n".to_vec());
}

#[test]
fn decimal_and_hex_digits() {
    assert_eq!(u64_decimal(0), b"0".to_vec());
    assert_eq!(u64_decimal(1234567890), b"1234567890".to_vec());
    assert_eq!(u64_decimal(u64::MAX), b"18446744073709551615".to_vec());
    assert_eq!(u64_hexadecimal(0), b"0".to_vec());
    assert_eq!(u64_hexadecimal(0xDEAD_BEEF), b"DEADBEEF".to_vec());
    assert_eq!(u64_lower_hexadecimal(0xDEAD_BEEF), b"deadbeef".to_vec());
    assert_eq!(hex_char(9), b'9');
    assert_eq!(hex_char(10), b'A');
    assert_eq!(hex_char(15), b'F');
}

#[test]
fn padding_helpers() {
    let mut out = b">".to_vec();
    push_padded_left(&mut out, &b"42".to_vec(), 5, b'0');
    assert_eq!(out, b">00042".to_vec());
    let mut out = Vec::new();
    push_padded_right(&mut out, &b"ab".to_vec(), 4);
    assert_eq!(out, b"ab  ".to_vec());
    let mut out = Vec::new();
    push_padded_right(&mut out, &b"abcdef".to_vec(), 3);
    assert_eq!(out, b"abcdef".to_vec());
    let mut out = Vec::new();
    push_str_padded_right(&mut out, "é", 3);
    assert_eq!(out, "é  ".as_bytes().to_vec());
}

#[test]
fn string_conversions() {
    assert_eq!(ascii_string(&b"DeepX".to_vec()), "DeepX".to_string());
    assert_eq!(bytes_as_str(b"hello"), "hello");
}

#[test]
fn utils_decimal_into_buffer() {
    let mut buf = [0u8; 20];
    assert_eq!(u64_to_str(0, &mut buf), "0");
    let mut buf = [0u8; 20];
    assert_eq!(u64_to_str(12345, &mut buf), "12345");
    let mut buf = [0u8; 3];
    assert_eq!(u64_to_str(12345, &mut buf), "345");
}

#[test]
fn utils_hex_into_buffer() {
    let mut buf = [0u8; 16];
    assert_eq!(u64_to_hex(0, &mut buf), "0");
    let mut buf = [0u8; 16];
    assert_eq!(u64_to_hex(0xBEEF, &mut buf), "BEEF");
    let mut b4 = [0u8; 4];
    assert_eq!(u8_to_hex(0xA7, &mut b4), "A7 ");
    assert_eq!(b4[3], 0);
}

#[test]
fn utils_format_size() {
    assert_eq!(format_size(0), "0 B");
    assert_eq!(format_size(1023), "1023 B");
    assert_eq!(format_size(1024), "1 KB");
    assert_eq!(format_size(5 * 1024 * 1024 + 7), "5 MB");
    assert_eq!(format_size_bytes(2048), b"2 KB".to_vec());
}
