use pico_cli::args::{contains_param, get_str_param};
use pico_cli::commands::{Command, CommandList, Dispatch, SimpleCli, MAX_CMDS};
use pico_cli::config::Config;
use pico_cli::error::{into_truncated, Error};
use pico_cli::gpios::IoPins;
use pico_cli::pin_config::pin_definition;
use pico_cli::serial_io::{LineReader, ReadStep};

fn cmd(name: &'static str, id: u32) -> Command<u32> {
    Command { name, desc: "d", help: "h", func: id }
}

fn registry() -> CommandList<u32> {
    let mut l = CommandList::new();
    l.register_command(cmd("reset", 1));
    l.register_command(cmd("pin", 2));
    l.register_command(cmd("Blink", 3));
    l
}

#[test]
fn lookup_ignores_case() {
    let l = registry();
    assert_eq!(l.get_command("PIN").unwrap().func, 2);
    assert_eq!(l.get_command("blink").unwrap().func, 3);
    assert_eq!(l.get_description("reset"), Ok("d"));
    assert!(matches!(l.get_command("nope"), Err(Error::CmdNotFound(_))));
    assert_eq!(l.get_description("nope"), Err(Error::CmdNotFound(into_truncated("nope"))));
}

#[test]
fn registry_is_bounded() {
    let mut l: CommandList<u32> = CommandList::new();
    for i in 0..25 {
        l.register_command(cmd("c", i));
    }
    assert_eq!(l.commands.len(), MAX_CMDS);
    assert_eq!(l.commands[MAX_CMDS - 1].func, (MAX_CMDS - 1) as u32);
}

#[test]
fn dispatch_help_and_commands() {
    let cli = SimpleCli::new(registry());
    assert!(matches!(cli.dispatch(""), Ok(Dispatch::ListAll)));
    assert!(matches!(cli.dispatch("HELP"), Ok(Dispatch::ListAll)));
    assert!(matches!(cli.dispatch("help pin"), Ok(Dispatch::Help(1))));
    assert!(matches!(cli.dispatch("pin help"), Ok(Dispatch::Help(1))));
    assert!(matches!(cli.dispatch("blink times=3 HELP"), Ok(Dispatch::Help(2))));
    assert_eq!(
        cli.dispatch("help nothing").err(),
        Some(Error::CmdNotFound(into_truncated("nothing")))
    );
    match cli.dispatch("BLINK times=5") {
        Ok(Dispatch::Run(i, parsed)) => {
            assert_eq!(i, 2);
            assert_eq!(parsed.cmd.as_str(), "blink");
            assert_eq!(get_str_param("times", &parsed.args), Some("5"));
        }
        _ => panic!("expected a command to run"),
    }
    assert_eq!(cli.dispatch("fly").err(), Some(Error::CmdNotFound(into_truncated("fly"))));
    assert!(matches!(cli.dispatch("pin x="), Err(Error::Parse(_))));
}

#[derive(Debug, PartialEq)]
struct FakePin {
    high: bool,
}

#[test]
fn pin_alias_led_high_end_to_end() {
    // the transport assembles the line
    let mut line = [0u8; 192];
    let mut reader = LineReader::start(true).unwrap();
    let mut step = ReadStep::Continue;
    for b in b"pin alias=LED high\n" {
        step = reader.on_byte(*b, &mut line);
        if step != ReadStep::Continue {
            break;
        }
    }
    let len = match step {
        ReadStep::Done(n) => n,
        other => panic!("unexpected {:?}", other),
    };
    let text = core::str::from_utf8(&line[..len]).unwrap();

    // the dispatcher resolves the command
    let cli = SimpleCli::new(registry());
    let parsed = match cli.dispatch(text) {
        Ok(Dispatch::Run(1, parsed)) => parsed,
        other => panic!("unexpected {:?}", other),
    };

    // the handler resolves the pin through its alias and drives it
    let mut config = Config::new(&pin_definition());
    let alias = get_str_param("alias", &parsed.args).unwrap();
    let (gpio, name) = config.get_gpio_alias_pair(None, Some(alias)).unwrap();
    assert_eq!((gpio, name), (25, "LED"));
    let mut outputs: IoPins<FakePin> = IoPins::new();
    assert_eq!(config.take_pin(gpio), Some(25));
    outputs.register(gpio, FakePin { high: false });
    let mut echoed = Vec::new();
    if contains_param(&parsed.args, "high") {
        let pin = outputs.get(gpio).unwrap();
        pin.high = true;
        echoed.push(format!("> Output Pin: GPIO {} - {}: set HIGH", gpio, name));
    }
    echoed.push("Enter Command >>>".to_string());
    assert_eq!(outputs.get(25).unwrap(), &FakePin { high: true });
    assert_eq!(echoed[0], "> Output Pin: GPIO 25 - LED: set HIGH");
    assert_eq!(echoed.len(), 2);
}
