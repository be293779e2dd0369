use kernel::user::{decimal, round_calls, sem_down, sem_up, Call, Hello, Printer};

fn putc(b: u8) -> Call {
    Call { no: 0, arg: b as usize }
}

#[test]
fn semaphore_calls_have_their_numbers() {
    assert_eq!(sem_down(), Call { no: 2, arg: 0 });
    assert_eq!(sem_up(), Call { no: 1, arg: 0 });
}

#[test]
fn user_printer_makes_one_call_for_each_byte() {
    let mut printer = Printer {};
    assert_eq!(printer.write_str(""), vec![]);
    assert_eq!(printer.write_str("ok\n"), vec![putc(b'o'), putc(b'k'), putc(b'\n')]);
    assert_eq!(printer.write_str("ä"), vec![putc(0xC3), putc(0xA4)]);
}

#[test]
fn decimal_gives_the_digits() {
    assert_eq!(decimal(0), b"0".to_vec());
    assert_eq!(decimal(7), b"7".to_vec());
    assert_eq!(decimal(10), b"10".to_vec());
    assert_eq!(decimal(99), b"99".to_vec());
    assert_eq!(decimal(100), b"100".to_vec());
    assert_eq!(decimal(1_234_567_890), b"1234567890".to_vec());
    assert_eq!(decimal(u32::MAX), b"4294967295".to_vec());
    for n in 0..2000 {
        assert_eq!(decimal(n), n.to_string().into_bytes());
    }
}

#[test]
fn round_takes_the_semaphore_prints_and_raises_it() {
    let calls = round_calls(12);
    let mut want = vec![sem_down()];
    want.extend("Hello World 12!\n".bytes().map(putc));
    want.push(sem_up());
    assert_eq!(calls, want);
}

#[test]
fn hello_goes_from_round_to_round() {
    let mut hello = Hello::new();
    let mut calls = Vec::new();
    for _ in 0..(17 * 9 + 18 * 3) {
        calls.push(hello.next());
    }
    let mut want = Vec::new();
    for no in 1..=12 {
        want.append(&mut round_calls(no));
    }
    assert_eq!(calls, want);
    assert_eq!(hello.no, 13);
    assert_eq!(hello.pos, 0);
    assert_eq!(hello.next(), sem_down());
    assert_eq!(hello.next(), putc(b'H'));
    assert_eq!((hello.no, hello.pos), (13, 2));
}
