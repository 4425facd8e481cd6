use kernel_net::error::SyscallErr;

#[test]
fn errors_are_returned_as_negative_numbers() {
    assert_eq!(SyscallErr::EFAULT.errno(), 14);
    assert_eq!(SyscallErr::EFAULT.ret(), -14);
    assert_eq!(SyscallErr::EAGAIN.ret(), -11);
    assert_eq!(SyscallErr::EINVAL.ret(), -22);
}
