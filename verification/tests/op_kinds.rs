//! Completion mapping of the operation kinds, and the raw-result
//! interpretation.

use uring_reactor::reactor::accept::Accept;
use uring_reactor::reactor::op::{Completable, CqeResult, Opable, OsError};
use uring_reactor::reactor::read::Read;
use uring_reactor::reactor::ring::{OpDesc, RawCqe};
use uring_reactor::reactor::write::Write;

fn ok_result(n: u32) -> CqeResult {
    CqeResult::from(RawCqe { user_data: 0, result: n as i32, flags: 0 })
}

#[test]
fn negative_raw_result_is_the_negated_errno() {
    let c = CqeResult::from(RawCqe { user_data: 0, result: -104, flags: 9 });
    assert_eq!(c.result, Err(OsError { code: 104 }));
    assert_eq!(c.flags, 9);
}

#[test]
fn non_negative_raw_result_is_the_value() {
    let c = CqeResult::from(RawCqe { user_data: 0, result: 0, flags: 0 });
    assert_eq!(c.result, Ok(0));
    let c = CqeResult::from(RawCqe { user_data: 0, result: 2048, flags: 0 });
    assert_eq!(c.result, Ok(2048));
}

#[test]
fn most_negative_raw_result_still_maps_to_an_error() {
    let c = CqeResult::from(RawCqe { user_data: 0, result: i32::MIN, flags: 0 });
    assert_eq!(c.result, Err(OsError { code: i32::MIN }));
}

#[test]
fn write_of_n_accepted_bytes_reports_n() {
    let w = Write { fd: 3, buf: b"ping".to_vec(), offset: 0 };
    let (res, buf) = w.complete(ok_result(4));
    assert_eq!(res.unwrap(), 4);
    assert_eq!(buf, b"ping".to_vec());
}

#[test]
fn write_error_maps_to_the_os_error() {
    let w = Write { fd: 3, buf: b"ping".to_vec(), offset: 0 };
    let (res, buf) = w.complete(CqeResult::from(RawCqe {
        user_data: 0,
        result: -32, // broken pipe
        flags: 0,
    }));
    assert_eq!(res, Err(OsError { code: 32 }));
    assert_eq!(buf, b"ping".to_vec());
}

#[test]
fn read_hands_the_buffer_back_with_the_byte_count() {
    let r = Read { fd: 3, buf: vec![7u8; 16], offset: 2 };
    let (res, buf) = r.complete(ok_result(16));
    assert_eq!(res.unwrap(), 16);
    assert_eq!(buf, vec![7u8; 16]);
}

#[test]
fn accept_success_is_the_connected_stream() {
    let a = Accept { fd: 5 };
    let stream = a.complete(ok_result(9)).unwrap();
    assert_eq!(stream.fd(), 9);
}

#[test]
fn accept_error_maps_to_the_os_error() {
    let a = Accept { fd: 5 };
    let res = a.complete(CqeResult::from(RawCqe { user_data: 0, result: -24, flags: 0 }));
    assert_eq!(res.unwrap_err(), OsError { code: 24 });
}

#[test]
fn opcodes_carry_descriptor_and_bounds() {
    let r = Read { fd: 3, buf: vec![0u8; 8], offset: 4 };
    assert_eq!(r.opcode(), OpDesc::Read { fd: 3, len: 8, offset: 4 });
    let w = Write { fd: 6, buf: vec![0u8; 5], offset: 0 };
    assert_eq!(w.opcode(), OpDesc::Write { fd: 6, len: 5, offset: 0 });
    let a = Accept { fd: 7 };
    assert_eq!(a.opcode(), OpDesc::Accept { fd: 7 });
}
