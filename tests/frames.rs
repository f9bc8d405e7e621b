use xtcat::header::{add_xtc, read_xdr_int, resolve_start_offset, XtcError};
use xtcat::job::Job;

/// An input of `len` bytes whose first-frame size field holds `size`; byte `i`
/// elsewhere holds `seed + i` so that ranges can be told apart.
fn trajectory(len: usize, size: i32, seed: u8) -> Vec<u8> {
    let mut data: Vec<u8> = (0..len).map(|i| seed.wrapping_add(i as u8)).collect();
    if len >= 92 {
        data[88..92].copy_from_slice(&size.to_be_bytes());
    }
    data
}

#[test]
fn xdr_int_positive() {
    assert_eq!(read_xdr_int(&[0, 0, 1, 0], 0), 256);
    assert_eq!(read_xdr_int(&[9, 0x12, 0x34, 0x56, 0x78], 1), 0x1234_5678);
}

#[test]
fn xdr_int_negative() {
    assert_eq!(read_xdr_int(&[0xff, 0xff, 0xff, 0xfe], 0), -2);
    assert_eq!(read_xdr_int(&[0x80, 0, 0, 0], 0), i32::MIN);
}

#[test]
fn offset_rounds_up() {
    let data = trajectory(300, 50, 0);
    assert_eq!(resolve_start_offset(&data), Ok(144));
}

#[test]
fn offset_already_aligned() {
    let data = trajectory(300, 52, 0);
    assert_eq!(resolve_start_offset(&data), Ok(144));
    let data = trajectory(300, 0, 0);
    assert_eq!(resolve_start_offset(&data), Ok(92));
}

#[test]
fn offset_always_multiple_of_four() {
    for size in 0..100 {
        let data = trajectory(300, size, 3);
        let offset = resolve_start_offset(&data).unwrap();
        assert_eq!(offset % 4, 0);
        assert!(offset >= size as u64 + 92 && offset < size as u64 + 96);
    }
}

#[test]
fn offset_of_short_input() {
    let data = trajectory(91, 0, 0);
    assert_eq!(resolve_start_offset(&data), Err(XtcError::HeaderRead));
    assert_eq!(resolve_start_offset(&[]), Err(XtcError::HeaderRead));
}

#[test]
fn offset_of_negative_size() {
    let data = trajectory(300, -4, 0);
    assert_eq!(resolve_start_offset(&data), Err(XtcError::MalformedOffset));
}

#[test]
fn offset_past_end() {
    let data = trajectory(143, 50, 0);
    assert_eq!(resolve_start_offset(&data), Err(XtcError::MalformedOffset));
    let data = trajectory(300, i32::MAX, 0);
    assert_eq!(resolve_start_offset(&data), Err(XtcError::MalformedOffset));
}

#[test]
fn offset_at_end() {
    let data = trajectory(144, 50, 0);
    assert_eq!(resolve_start_offset(&data), Ok(144));
    let mut out = vec![7u8];
    assert_eq!(add_xtc(&data, &mut out, true), Ok(()));
    assert_eq!(out, vec![7u8]);
}

#[test]
fn offset_twice_same() {
    let data = trajectory(500, 201, 5);
    assert_eq!(resolve_start_offset(&data), resolve_start_offset(&data));
    assert_eq!(resolve_start_offset(&data), Ok(296));
}

#[test]
fn first_file_copied_whole() {
    let data = trajectory(120, 400, 1);
    let mut out = Vec::new();
    assert_eq!(add_xtc(&data, &mut out, false), Ok(()));
    assert_eq!(out, data);
    let mut out = Vec::new();
    assert_eq!(add_xtc(&[1, 2, 3], &mut out, false), Ok(()));
    assert_eq!(out, vec![1, 2, 3]);
}

#[test]
fn later_file_skips_first_frame() {
    let data = trajectory(200, 10, 1);
    let mut out = vec![9u8, 9];
    assert_eq!(add_xtc(&data, &mut out, true), Ok(()));
    let mut expected = vec![9u8, 9];
    expected.extend_from_slice(&data[104..]);
    assert_eq!(out, expected);
}

#[test]
fn failed_append_leaves_output() {
    let mut out = vec![1u8, 2, 3];
    assert_eq!(add_xtc(&[0u8; 50], &mut out, true), Err(XtcError::HeaderRead));
    assert_eq!(out, vec![1u8, 2, 3]);
    let data = trajectory(100, 60, 0);
    assert_eq!(add_xtc(&data, &mut out, true), Err(XtcError::MalformedOffset));
    assert_eq!(out, vec![1u8, 2, 3]);
}

fn run_job(inputs: &[Option<Vec<u8>>]) -> (Vec<u8>, Option<(usize, XtcError)>) {
    let mut job = Job::new(inputs.len());
    let mut out = Vec::new();
    while let Some(i) = job.next_input() {
        match job.feed(inputs[i].as_deref()) {
            Ok(bytes) => out.extend_from_slice(&bytes),
            Err(e) => return (out, Some((i, e))),
        }
    }
    (out, None)
}

#[test]
fn job_concatenates_in_order() {
    let a = trajectory(150, 20, 0);
    let b = trajectory(160, 30, 100);
    let c = trajectory(170, 1, 200);
    let (out, failure) = run_job(&[Some(a.clone()), Some(b.clone()), Some(c.clone())]);
    assert_eq!(failure, None);
    let mut expected = a.clone();
    expected.extend_from_slice(&b[124..]);
    expected.extend_from_slice(&c[96..]);
    assert_eq!(out, expected);
}

#[test]
fn job_output_length() {
    let a = trajectory(150, 20, 0);
    let b = trajectory(160, 30, 100);
    let c = trajectory(170, 1, 200);
    let (out, _) = run_job(&[Some(a), Some(b), Some(c)]);
    assert_eq!(out.len(), 150 + (160 - 124) + (170 - 96));
}

#[test]
fn job_order_matters() {
    let a = trajectory(150, 20, 0);
    let b = trajectory(160, 30, 100);
    let (ab, _) = run_job(&[Some(a.clone()), Some(b.clone())]);
    let (ba, _) = run_job(&[Some(b.clone()), Some(a.clone())]);
    assert_ne!(ab, ba);
    let mut expected = b.clone();
    expected.extend_from_slice(&a[112..]);
    assert_eq!(ba, expected);
}

#[test]
fn job_stops_at_unreadable_input() {
    let a = trajectory(150, 20, 0);
    let c = trajectory(170, 1, 200);
    let mut job = Job::new(3);
    assert_eq!(job.next_input(), Some(0));
    assert_eq!(job.feed(Some(&a)), Ok(a.clone()));
    assert_eq!(job.next_input(), Some(1));
    assert_eq!(job.feed(None), Err(XtcError::InputOpen));
    assert_eq!(job.next_input(), None);
    let (out, failure) = run_job(&[Some(a.clone()), None, Some(c)]);
    assert_eq!(out, a);
    assert_eq!(failure, Some((1, XtcError::InputOpen)));
}

#[test]
fn job_stops_at_malformed_input() {
    let a = trajectory(150, 20, 0);
    let bad = trajectory(80, 0, 0);
    let (out, failure) = run_job(&[Some(a.clone()), Some(bad), Some(a.clone())]);
    assert_eq!(out, a);
    assert_eq!(failure, Some((1, XtcError::HeaderRead)));
}

#[test]
fn job_first_input_not_parsed() {
    let short = vec![1u8, 2, 3];
    let (out, failure) = run_job(&[Some(short.clone())]);
    assert_eq!(out, short);
    assert_eq!(failure, None);
}

#[test]
fn job_without_inputs() {
    let job = Job::new(0);
    assert_eq!(job.next_input(), None);
}
