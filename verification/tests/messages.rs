use rtipc_zbus::wrap::{low_bits, to_signed, to_unsigned};
use rtipc_zbus::{CommandId, MsgCommand, MsgEvent, MsgResponse};

#[test]
fn command_text() {
    let cmd = MsgCommand {
        id: 4,
        args: [100, -7, i32::MIN],
    };
    assert_eq!(
        cmd.to_text(),
        "id: 4\n\targ[0]: 100\n\targ[1]: -7\n\targ[2]: -2147483648\n"
    );
}

#[test]
fn response_text() {
    let response = MsgResponse {
        id: u32::MAX,
        result: -1,
        data: i32::MAX,
    };
    assert_eq!(
        response.to_text(),
        "id: 4294967295\n\tresult: -1\n\tdata: 2147483647\n"
    );
}

#[test]
fn event_text() {
    let event = MsgEvent { id: 11, nr: 0 };
    assert_eq!(event.to_text(), "id: 11\n\tnr: 0\n");
    let event = MsgEvent { id: 0, nr: 1000 };
    assert_eq!(event.to_text(), "id: 0\n\tnr: 1000\n");
}

#[test]
fn numbers_are_written_as_usual() {
    for n in [0, 1, 9, 10, 11, 99, 100, 101, 12345, 1_000_000_000, u32::MAX] {
        let event = MsgEvent { id: n, nr: n };
        assert_eq!(event.to_text(), format!("id: {}\n\tnr: {}\n", n, n));
    }
    for n in [0, -1, 1, -9, -10, 10, i32::MIN, i32::MIN + 1, i32::MAX] {
        let response = MsgResponse {
            id: 0,
            result: n,
            data: n,
        };
        assert_eq!(
            response.to_text(),
            format!("id: 0\n\tresult: {}\n\tdata: {}\n", n, n)
        );
    }
}

#[test]
fn command_codes() {
    for (c, code) in [
        (CommandId::Hello, 1),
        (CommandId::Stop, 2),
        (CommandId::SendEvent, 3),
        (CommandId::Div, 4),
    ] {
        assert_eq!(c.code(), code);
        assert_eq!(CommandId::from_code(code), Some(c));
    }
    for code in [0, 5, u32::MAX] {
        assert_eq!(CommandId::from_code(code), None);
    }
}

#[test]
fn executable_commands() {
    let executable = |id, a, b| {
        MsgCommand {
            id,
            args: [a, b, 0],
        }
        .is_executable()
    };
    for id in 1..5 {
        assert!(executable(id, 1, 1));
    }
    assert!(!executable(0, 1, 1));
    assert!(!executable(5, 1, 1));
    assert!(!executable(4, i32::MIN, -1));
    assert!(executable(4, i32::MIN, 0));
    assert!(executable(4, i32::MIN + 1, -1));
    assert!(executable(3, i32::MIN, -1));
}

#[test]
fn casts() {
    for x in [0, 1, 0x7fff_ffff, 0x8000_0000, u32::MAX] {
        assert_eq!(to_signed(x), x as i32);
        assert_eq!(to_unsigned(to_signed(x)), x);
    }
    assert_eq!(to_signed(u32::MAX), -1);
    assert_eq!(to_unsigned(i32::MIN), 0x8000_0000);
    assert_eq!(low_bits(7), 7);
    assert_eq!(low_bits(usize::MAX), u32::MAX);
}
