use embedded_cli::{
    Cli, CliError, CommandProcessorError, Handler, ReadFault, ReturnCode, RunResult, Transport,
};
use heapless::String;

/// A loopback port: reads cycle through what was queued, writes collect.
struct SerialMock {
    read_buffer: Vec<u8>,
    write_buffer: Vec<u8>,
    read_ptr: usize,
}

impl SerialMock {
    fn new() -> SerialMock {
        SerialMock { read_buffer: Vec::new(), write_buffer: Vec::new(), read_ptr: 0 }
    }

    fn get_buffer(&mut self) -> &mut Vec<u8> {
        &mut self.read_buffer
    }

    fn read_from_write_buffer(&mut self) -> &mut Vec<u8> {
        &mut self.write_buffer
    }

    fn write_to_read_buffer(&mut self, bytes: &[u8]) {
        for byte in bytes {
            if self.read_buffer.len() < 512 {
                self.read_buffer.push(*byte);
            }
        }
    }
}

impl Transport for SerialMock {
    fn read_byte(&mut self) -> Result<u8, ReadFault> {
        match self.read_buffer.get(self.read_ptr) {
            Some(byte) => {
                if self.read_ptr == self.read_buffer.len() - 1 {
                    self.read_ptr = 0;
                } else {
                    self.read_ptr += 1;
                }
                Ok(*byte)
            }
            None => Err(ReadFault::NoData),
        }
    }

    fn write_byte(&mut self, byte: u8) -> Result<(), ()> {
        if self.write_buffer.len() < 512 {
            self.write_buffer.push(byte);
            Ok(())
        } else {
            Err(())
        }
    }

    fn write_text(&mut self, text: &[u8]) -> Result<(), ()> {
        for byte in text {
            self.write_byte(*byte)?;
        }
        Ok(())
    }
}

/// What a scripted port does on each read.
#[derive(Clone, Copy)]
enum Ev {
    Byte(u8),
    Fail,
}

/// A port that plays a script once, then has no data; writes collect and
/// fail once `write_limit` bytes were written.
struct ScriptPort {
    script: Vec<Ev>,
    pos: usize,
    out: Vec<u8>,
    write_limit: usize,
}

impl ScriptPort {
    fn new(bytes: &[u8]) -> ScriptPort {
        ScriptPort {
            script: bytes.iter().map(|b| Ev::Byte(*b)).collect(),
            pos: 0,
            out: Vec::new(),
            write_limit: usize::MAX,
        }
    }

    fn from_events(script: Vec<Ev>) -> ScriptPort {
        ScriptPort { script, pos: 0, out: Vec::new(), write_limit: usize::MAX }
    }
}

impl Transport for ScriptPort {
    fn read_byte(&mut self) -> Result<u8, ReadFault> {
        match self.script.get(self.pos) {
            Some(ev) => {
                self.pos += 1;
                match *ev {
                    Ev::Byte(b) => Ok(b),
                    Ev::Fail => Err(ReadFault::Failed),
                }
            }
            None => Err(ReadFault::NoData),
        }
    }

    fn write_byte(&mut self, byte: u8) -> Result<(), ()> {
        if self.out.len() < self.write_limit {
            self.out.push(byte);
            Ok(())
        } else {
            Err(())
        }
    }

    fn write_text(&mut self, text: &[u8]) -> Result<(), ()> {
        for byte in text {
            self.write_byte(*byte)?;
        }
        Ok(())
    }
}

/// A handler that writes a fixed text.
struct Say(&'static str);

impl Handler for Say {
    fn call<T: Transport>(&self, out: &mut T) -> Result<ReturnCode, CommandProcessorError> {
        match out.write_text(self.0.as_bytes()) {
            Ok(()) => Ok(ReturnCode::Success),
            Err(()) => Err(CommandProcessorError::WriteError),
        }
    }
}

/// Steps the session until a step ends.
fn run<H: Handler, T: Transport, const N: usize, const S: usize>(
    cli: &mut Cli<H, N, S>,
    serial: &mut T,
) -> RunResult {
    loop {
        if let Some(r) = cli.poll(serial) {
            return r;
        }
    }
}

fn text(bytes: &[u8]) -> std::string::String {
    std::string::String::from_utf8(bytes.to_vec()).unwrap()
}

fn not_found() -> RunResult {
    Err(CliError::CommandNotFound)
}

#[test]
fn test_init() {
    let mut cli = Cli::<Say, 8, 32>::new();

    let mut serial = SerialMock::new();

    assert!(cli.init(&mut serial).is_ok());
    assert_eq!(text(serial.read_from_write_buffer()), "\r\ncli> ");
}

#[test]
fn test_add_remove_command() {
    let mut cli = Cli::<Say, 8, 32>::new();

    cli.add_command(
        String::from("test"),
        Say("Write this to the serial port"),
        Some(String::from("test command")),
    )
    .unwrap();

    assert!(cli.remove_command(String::from("test")).is_ok());
}

#[test]
fn test_remove_unknown_command() {
    let mut cli = Cli::<Say, 8, 32>::new();

    assert!(cli.remove_command(String::from("test")).is_err());
}

#[test]
fn test_add_command_too_many() {
    let mut cli = Cli::<Say, 2, 32>::new();

    cli.add_command(
        String::from("test"),
        Say("Write this to the serial port"),
        Some(String::from("test command")),
    )
    .unwrap();

    cli.add_command(String::from("test2"), Say("test2"), Some(String::from("test2 command")))
        .unwrap();

    assert!(cli
        .add_command(String::from("test3"), Say("test3"), Some(String::from("test3 command")))
        .is_err());
}

#[test]
fn test_process_command() {
    let mut cli = Cli::<Say, 8, 32>::new();

    cli.add_command(
        String::from("test"),
        Say("Write this to the serial port"),
        Some(String::from("test command")),
    )
    .unwrap();

    cli.add_command(String::from("test2"), Say("test2"), Some(String::from("test2 command")))
        .unwrap();

    let mut serial = SerialMock::new();

    let test_str = "test\r\ntest2\r\n";

    serial.write_to_read_buffer(test_str.as_bytes());

    assert!(cli.init(&mut serial).is_ok());

    let result = run(&mut cli, &mut serial);

    assert!(result.is_ok());

    assert_eq!(
        text(serial.read_from_write_buffer()),
        "\r\ncli> test\r\ncli> Write this to the serial port\r\ncli> "
    );

    assert_eq!(text(serial.get_buffer()), "test\r\ntest2\r\n");
}

#[test]
fn test_history() {
    let mut cli = Cli::<Say, 8, 32>::new();

    cli.add_command(String::from("test"), Say("test"), Some(String::from("test command")))
        .unwrap();

    let mut serial = SerialMock::new();

    // test string with ascii up arrow
    let test_str = "test\r\n\x1B[A\r\n";

    serial.write_to_read_buffer(test_str.as_bytes());

    assert!(cli.init(&mut serial).is_ok());

    let result = run(&mut cli, &mut serial);

    assert!(result.is_ok());

    assert_eq!(text(serial.read_from_write_buffer()), "\r\ncli> test\r\ncli> test\r\ncli> ");

    assert_eq!(text(serial.get_buffer()), "test\r\n\x1b[A\r\n");
}

#[test]
fn test_backspace() {
    let mut cli = Cli::<Say, 8, 32>::new();

    cli.add_command(String::from("test"), Say("hello"), Some(String::from("test command")))
        .unwrap();

    let test_str = "testt\x08\r\n";

    let mut serial = SerialMock::new();

    serial.write_to_read_buffer(test_str.as_bytes());

    assert!(cli.init(&mut serial).is_ok());

    let result = run(&mut cli, &mut serial);

    assert!(result.is_ok());

    assert_eq!(
        text(serial.read_from_write_buffer()),
        "\r\ncli> testt\x08 \x08\r\ncli> hello\r\ncli> "
    );
}

#[test]
fn greeting_is_newline_and_prompt() {
    let cli = Cli::<Say, 8, 32>::new();
    assert_eq!(cli.greeting(), b"\r\ncli> ".to_vec());
}

#[test]
fn init_reports_write_failure() {
    let mut cli = Cli::<Say, 8, 32>::new();
    let mut port = ScriptPort::new(b"");
    port.write_limit = 3;
    assert_eq!(cli.init(&mut port), Err(CliError::WriteError));
}

#[test]
fn registry_fills_then_refuses() {
    let mut cli = Cli::<Say, 3, 32>::new();
    assert_eq!(cli.add_command(String::from("a"), Say(""), None), Ok(()));
    assert_eq!(cli.add_command(String::from("b"), Say(""), None), Ok(()));
    assert_eq!(
        cli.add_command(String::from("a"), Say(""), None),
        Err(CommandProcessorError::DuplicateName)
    );
    assert_eq!(cli.add_command(String::from("c"), Say(""), None), Ok(()));
    assert_eq!(
        cli.add_command(String::from("d"), Say(""), None),
        Err(CommandProcessorError::CapacityExceeded)
    );
    assert_eq!(
        cli.remove_command(String::from("zz")),
        Err(CommandProcessorError::NotFound)
    );
    assert_eq!(cli.remove_command(String::from("b")), Ok(()));
    assert_eq!(
        cli.remove_command(String::from("b")),
        Err(CommandProcessorError::NotFound)
    );
    assert_eq!(cli.add_command(String::from("d"), Say(""), None), Ok(()));
}

#[test]
fn unknown_command_does_not_end_session() {
    let mut cli = Cli::<Say, 8, 32>::new();
    cli.add_command(String::from("go"), Say("went"), None).unwrap();
    let mut port = ScriptPort::new(b"stop\rgo\r");
    assert_eq!(run(&mut cli, &mut port), not_found());
    assert_eq!(run(&mut cli, &mut port), Ok(Some(ReturnCode::Success)));
    assert_eq!(run(&mut cli, &mut port), Ok(None));
    assert_eq!(text(&port.out), "stop\r\ncli> \r\ncli> go\r\ncli> went\r\ncli> ");
}

#[test]
fn removed_command_is_not_dispatched() {
    let mut cli = Cli::<Say, 8, 32>::new();
    cli.add_command(String::from("go"), Say("went"), None).unwrap();
    cli.remove_command(String::from("go")).unwrap();
    let mut port = ScriptPort::new(b"go\r");
    assert_eq!(run(&mut cli, &mut port), not_found());
}

#[test]
fn history_walks_and_holds() {
    let mut cli = Cli::<Say, 8, 32>::new();
    cli.add_command(String::from("cd"), Say("hi"), None).unwrap();
    let mut port = ScriptPort::new(
        b"ab\rcd\r\x1b[A\x1b[A\x1b[A\x1b[B\x1b[B\r",
    );
    assert_eq!(run(&mut cli, &mut port), not_found());
    assert_eq!(run(&mut cli, &mut port), Ok(Some(ReturnCode::Success)));
    assert_eq!(run(&mut cli, &mut port), Ok(Some(ReturnCode::Success)));
    assert_eq!(run(&mut cli, &mut port), Ok(None));
    assert_eq!(
        text(&port.out),
        [
            "ab\r\ncli> \r\ncli> ",
            "cd\r\ncli> hi\r\ncli> ",
            "\x1b[ cd",
            "\x1b[\x08\x08 ab",
            "\x1b[\x08\x08 ab",
            "\x1b[\x08\x08 ab",
            "\x1b[\x08\x08 cd",
            "\r\ncli> hi\r\ncli> ",
        ]
        .concat()
    );
}

#[test]
fn up_key_with_empty_history_does_nothing() {
    let mut cli = Cli::<Say, 8, 32>::new();
    let mut port = ScriptPort::new(b"\x1b[A");
    assert_eq!(run(&mut cli, &mut port), Ok(None));
    assert_eq!(port.out, b"\x1b[".to_vec());
}

#[test]
fn plain_capital_a_is_a_letter() {
    let mut cli = Cli::<Say, 8, 32>::new();
    cli.add_command(String::from("AB"), Say("yes"), None).unwrap();
    let mut port = ScriptPort::new(b"AB\r");
    assert_eq!(run(&mut cli, &mut port), Ok(Some(ReturnCode::Success)));
    assert_eq!(text(&port.out), "AB\r\ncli> yes\r\ncli> ");
}

#[test]
fn backspace_on_empty_line_is_silent() {
    let mut cli = Cli::<Say, 8, 32>::new();
    let mut port = ScriptPort::new(b"\x08");
    port.write_limit = 0;
    assert_eq!(cli.poll(&mut port), None);
    assert_eq!(cli.feed(0x08), Vec::<u8>::new());
    assert!(port.out.is_empty());
}

#[test]
fn backspace_pops_filtered_line_regardless() {
    let mut cli = Cli::<Say, 8, 32>::new();
    cli.add_command(String::from("a"), Say("x"), None).unwrap();
    let mut port = ScriptPort::new(b"a-\x08\r");
    assert_eq!(run(&mut cli, &mut port), not_found());
    assert_eq!(text(&port.out), "a-\x08 \x08\r\ncli> \r\ncli> ");
}

#[test]
fn punctuation_is_echoed_but_not_a_key() {
    let mut cli = Cli::<Say, 8, 32>::new();
    cli.add_command(String::from("ab"), Say("ok"), None).unwrap();
    let mut port = ScriptPort::new(b"a b!\r");
    assert_eq!(run(&mut cli, &mut port), Ok(Some(ReturnCode::Success)));
    assert_eq!(text(&port.out), "a b!\r\ncli> ok\r\ncli> ");
}

#[test]
fn long_line_is_cut_at_capacity() {
    let name: std::string::String = "a".repeat(32);
    let mut cli = Cli::<Say, 8, 32>::new();
    cli.add_command(String::from(name.as_str()), Say("full"), None).unwrap();
    let typed = "a".repeat(40) + "\r";
    let mut port = ScriptPort::new(typed.as_bytes());
    assert_eq!(run(&mut cli, &mut port), Ok(Some(ReturnCode::Success)));
    assert_eq!(text(&port.out), name.clone() + "\r\ncli> full\r\ncli> ");
}

#[test]
fn line_feed_redraws_prompt_only() {
    let mut cli = Cli::<Say, 8, 32>::new();
    cli.add_command(String::from("ab"), Say("ok"), None).unwrap();
    let mut port = ScriptPort::new(b"a\nb\r");
    assert_eq!(run(&mut cli, &mut port), Ok(Some(ReturnCode::Success)));
    assert_eq!(text(&port.out), "a\r\ncli> b\r\ncli> ok\r\ncli> ");
}

#[test]
fn no_data_is_idle() {
    let mut cli = Cli::<Say, 8, 32>::new();
    let mut port = ScriptPort::new(b"");
    assert_eq!(cli.poll(&mut port), Some(Ok(None)));
    assert!(port.out.is_empty());
}

#[test]
fn read_failure_keeps_the_line() {
    let mut cli = Cli::<Say, 8, 32>::new();
    cli.add_command(String::from("ab"), Say("ok"), None).unwrap();
    let mut port = ScriptPort::from_events(vec![
        Ev::Byte(b'a'),
        Ev::Fail,
        Ev::Byte(b'b'),
        Ev::Byte(b'\r'),
    ]);
    assert_eq!(run(&mut cli, &mut port), Err(CliError::ReadError));
    assert_eq!(run(&mut cli, &mut port), Ok(Some(ReturnCode::Success)));
    assert_eq!(text(&port.out), "ab\r\ncli> ok\r\ncli> ");
}

#[test]
fn echo_write_failure_clears_the_line() {
    let mut cli = Cli::<Say, 8, 32>::new();
    cli.add_command(String::from("b"), Say("ok"), None).unwrap();
    let mut port = ScriptPort::new(b"ab\r");
    port.write_limit = 0;
    assert_eq!(run(&mut cli, &mut port), Err(CliError::WriteError));
    port.write_limit = usize::MAX;
    assert_eq!(run(&mut cli, &mut port), Ok(Some(ReturnCode::Success)));
    assert_eq!(text(&port.out), "b\r\ncli> ok\r\ncli> ");
}

#[test]
fn handler_write_failure_is_reported() {
    let mut cli = Cli::<Say, 8, 32>::new();
    cli.add_command(String::from("a"), Say("long output"), None).unwrap();
    let mut port = ScriptPort::new(b"a\r");
    port.write_limit = 10;
    assert_eq!(run(&mut cli, &mut port), Err(CliError::WriteError));
    assert_eq!(text(&port.out), "a\r\ncli> lo");
}

/// A handler that writes nothing and reports a fixed outcome.
struct Answer(Result<ReturnCode, CommandProcessorError>);

impl Handler for Answer {
    fn call<T: Transport>(&self, _out: &mut T) -> Result<ReturnCode, CommandProcessorError> {
        self.0
    }
}

#[test]
fn handler_outcome_is_handed_on() {
    let mut cli = Cli::<Answer, 8, 32>::new();
    cli.add_command(String::from("no"), Answer(Ok(ReturnCode::Failure)), None).unwrap();
    cli.add_command(
        String::from("err"),
        Answer(Err(CommandProcessorError::WriteError)),
        None,
    )
    .unwrap();
    let mut port = ScriptPort::new(b"no\rerr\r");
    assert_eq!(run(&mut cli, &mut port), Ok(Some(ReturnCode::Failure)));
    assert_eq!(
        run(&mut cli, &mut port),
        Err(CliError::CommandProcessorError(CommandProcessorError::WriteError))
    );
    assert_eq!(text(&port.out), "no\r\ncli> \r\ncli> err\r\ncli> \r\ncli> ");
}

#[test]
fn handle_byte_steps_one_byte() {
    let mut cli = Cli::<Say, 8, 32>::new();
    cli.add_command(String::from("a"), Say("out"), None).unwrap();
    let mut port = ScriptPort::new(b"");
    assert_eq!(cli.handle_byte(&mut port, b'a'), None);
    assert_eq!(cli.handle_byte(&mut port, b'\r'), Some(Ok(Some(ReturnCode::Success))));
    assert_eq!(text(&port.out), "a\r\ncli> out\r\ncli> ");
}

#[test]
fn default_session_matches_new() {
    let mut cli: Cli<Say, 8, 32> = Default::default();
    assert_eq!(cli.greeting(), b"\r\ncli> ".to_vec());
    let mut port = ScriptPort::new(b"x\r");
    assert_eq!(run(&mut cli, &mut port), not_found());
}

#[test]
fn duplicate_on_full_registry_is_duplicate() {
    let mut cli = Cli::<Say, 1, 32>::new();
    assert_eq!(cli.add_command(String::from("a"), Say(""), None), Ok(()));
    assert_eq!(
        cli.add_command(String::from("a"), Say(""), None),
        Err(CommandProcessorError::DuplicateName)
    );
    assert_eq!(
        cli.add_command(String::from("b"), Say(""), None),
        Err(CommandProcessorError::CapacityExceeded)
    );
}

#[test]
fn letter_on_full_raw_line_is_dropped() {
    let mut cli = Cli::<Say, 8, 32>::new();
    cli.add_command(String::from("a"), Say("x"), None).unwrap();
    let typed = "-".repeat(32) + "a\r";
    let mut port = ScriptPort::new(typed.as_bytes());
    assert_eq!(run(&mut cli, &mut port), not_found());
    assert_eq!(text(&port.out), "-".repeat(32) + "\r\ncli> \r\ncli> ");
}

#[test]
fn newest_line_recalled_after_ring_wraps() {
    let mut cli = Cli::<Say, 8, 32>::new();
    let mut input = std::string::String::new();
    for i in 1..=10 {
        input += &format!("l{}\r", i);
    }
    input += "\x1b[A\x1b[A";
    let mut port = ScriptPort::new(input.as_bytes());
    for _ in 1..=10 {
        assert_eq!(run(&mut cli, &mut port), not_found());
    }
    port.out.clear();
    assert_eq!(run(&mut cli, &mut port), Ok(None));
    assert_eq!(text(&port.out), "\x1b[ l10\x1b[\x08\x08\x08 l9");
}

#[test]
fn handler_not_found_is_not_lookup_failure() {
    let mut cli = Cli::<Answer, 8, 32>::new();
    cli.add_command(
        String::from("x"),
        Answer(Err(CommandProcessorError::CommandNotFound)),
        None,
    )
    .unwrap();
    let mut port = ScriptPort::new(b"x\ry\r");
    assert_eq!(
        run(&mut cli, &mut port),
        Err(CliError::CommandProcessorError(CommandProcessorError::CommandNotFound))
    );
    assert_eq!(run(&mut cli, &mut port), Err(CliError::CommandNotFound));
}
