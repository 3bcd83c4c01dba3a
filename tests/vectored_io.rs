use async_file::backend::{route, Backend, FileOp, Route};
use async_file::buf::FileVolatileBuf;
use async_file::vectored::{classify, distribute_read, Step};

fn complete_read(bufs: &mut Vec<FileVolatileBuf>, res: isize) -> usize {
    match classify(res, false) {
        Step::Complete(n) => {
            let left = distribute_read(bufs, n);
            assert_eq!(left, 0);
            n
        }
        other => panic!("unexpected step {:?}", other),
    }
}

#[test]
fn read_three_bytes_then_two_at_offset_two() {
    // A four-byte file: three bytes at offset 0, then two at offset 2.
    let mut bufs = vec![FileVolatileBuf::new(0, 3)];
    assert_eq!(complete_read(&mut bufs, 3), 3);
    assert_eq!(bufs[0].len(), 3);

    let mut bufs = vec![FileVolatileBuf::new(0, 3)];
    assert_eq!(complete_read(&mut bufs, 2), 2);
    assert_eq!(bufs[0].len(), 2);
    assert_eq!(bufs[0].room(), 1);
}

#[test]
fn vectored_read_fills_first_buffer_then_second() {
    let mut bufs = vec![FileVolatileBuf::new(0, 3), FileVolatileBuf::new(64, 3)];
    assert_eq!(complete_read(&mut bufs, 4), 4);
    assert_eq!(bufs[0].len(), 3);
    assert_eq!(bufs[1].len(), 1);
    assert_eq!(bufs[1].room(), 2);
    assert_eq!(bufs[1].addr(), 64);
}

#[test]
fn vectored_write_reports_count_and_keeps_lengths() {
    let bufs = vec![FileVolatileBuf::from_raw(0, 3, 3), FileVolatileBuf::from_raw(8, 1, 1)];
    assert_eq!(classify(4, false), Step::Complete(4));
    assert_eq!(bufs[0].len(), 3);
    assert_eq!(bufs[1].len(), 1);
}

#[test]
fn read_at_end_of_file_changes_nothing() {
    let mut bufs = vec![FileVolatileBuf::new(0, 3), FileVolatileBuf::from_raw(0, 2, 5)];
    assert_eq!(complete_read(&mut bufs, 0), 0);
    assert_eq!(bufs[0].len(), 0);
    assert_eq!(bufs[1].len(), 2);
    assert!(bufs[0].is_empty());
}

#[test]
fn read_skips_full_buffers_and_appends_after_valid_bytes() {
    let mut bufs = vec![
        FileVolatileBuf::from_raw(0, 2, 2),
        FileVolatileBuf::from_raw(0, 1, 4),
        FileVolatileBuf::new(0, 2),
        FileVolatileBuf::new(0, 2),
    ];
    assert_eq!(complete_read(&mut bufs, 4), 4);
    assert_eq!(bufs[0].len(), 2);
    assert_eq!(bufs[1].len(), 4);
    assert_eq!(bufs[2].len(), 1);
    assert_eq!(bufs[3].len(), 0);
}

#[test]
fn read_larger_than_room_leaves_bytes_over() {
    let mut bufs = vec![FileVolatileBuf::new(0, 2), FileVolatileBuf::from_raw(0, 1, 2)];
    let left = distribute_read(&mut bufs, 7);
    assert_eq!(left, 4);
    assert_eq!(bufs[0].len(), 2);
    assert_eq!(bufs[1].len(), 2);
}

#[test]
fn read_into_no_buffers() {
    let mut bufs: Vec<FileVolatileBuf> = Vec::new();
    assert_eq!(distribute_read(&mut bufs, 0), 0);
    assert_eq!(distribute_read(&mut bufs, 3), 3);
}

#[test]
fn interrupted_call_is_retried_and_other_errors_fail() {
    assert_eq!(classify(-1, true), Step::Retry);
    assert_eq!(classify(-1, false), Step::Fail);
    assert_eq!(classify(0, true), Step::Complete(0));
    assert_eq!(classify(isize::MAX, false), Step::Complete(isize::MAX as usize));
}

#[test]
fn interrupted_then_successful_read_matches_plain_read() {
    let mut plain = vec![FileVolatileBuf::new(0, 3), FileVolatileBuf::new(0, 3)];
    let n = complete_read(&mut plain, 4);

    let mut retried = vec![FileVolatileBuf::new(0, 3), FileVolatileBuf::new(0, 3)];
    let mut result = None;
    for (res, interrupted) in [(-1isize, true), (-1, true), (4, false)] {
        match classify(res, interrupted) {
            Step::Retry => continue,
            Step::Complete(count) => {
                assert_eq!(distribute_read(&mut retried, count), 0);
                result = Some(count);
                break;
            }
            Step::Fail => panic!("unexpected failure"),
        }
    }
    assert_eq!(result, Some(n));
    assert_eq!(retried[0].len(), plain[0].len());
    assert_eq!(retried[1].len(), plain[1].len());
}

#[test]
fn set_size_and_extend_to_move_the_valid_length() {
    let mut b = FileVolatileBuf::new(16, 8);
    assert_eq!(b.cap(), 8);
    b.set_size(5);
    assert_eq!(b.len(), 5);
    assert_eq!(b.room(), 3);
    b.extend_to(3);
    assert_eq!(b.len(), 5);
    b.extend_to(8);
    assert_eq!(b.len(), 8);
    assert_eq!(b.room(), 0);
    b.set_size(0);
    assert!(b.is_empty());
    b.grow(6);
    assert_eq!(b.len(), 6);
    b.grow(2);
    assert_eq!(b.len(), 8);
    assert_eq!(b.addr(), 16);
}

#[test]
fn routes_per_backend() {
    assert_eq!(route(Backend::Blocking, FileOp::ReadAt), Route::Descriptor);
    assert_eq!(route(Backend::QueueBound, FileOp::ReadAt), Route::Native);
    assert_eq!(route(Backend::Blocking, FileOp::WriteAt), Route::Descriptor);
    assert_eq!(route(Backend::QueueBound, FileOp::WriteAt), Route::Native);
    assert_eq!(route(Backend::QueueBound, FileOp::ReadvAt), Route::Descriptor);
    assert_eq!(route(Backend::QueueBound, FileOp::WritevAt), Route::Descriptor);
    assert_eq!(route(Backend::Blocking, FileOp::Metadata), Route::Descriptor);
    assert_eq!(route(Backend::Blocking, FileOp::TryClone), Route::Native);
    assert_eq!(route(Backend::QueueBound, FileOp::TryClone), Route::Unsupported);
}
