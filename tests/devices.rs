use pico_cli::config::ConfigError;
use pico_cli::gpios::IoPins;
use pico_cli::log::{Log, LogLevel};
use pico_cli::program::{DhtError, Program, State};
use pico_cli::pwms::{calculate_duty_from_us, calculate_pwm_dividers, Channel, PwmAliases};
use pico_cli::tasklet::{Tasklet, TaskletStep};

#[test]
fn tasklet_runs_a_bounded_number_of_times() {
    let mut t = Tasklet::new(200, 3);
    assert_eq!(t.interval_us, 200_000);
    assert_eq!(t.is_ready(), TaskletStep::FirstRun);
    let mut ready = 1;
    let mut cancelled = false;
    for elapsed in [false, true, false, true, true] {
        match t.is_ready() {
            TaskletStep::CheckTimer => {
                let (r, c) = t.on_timer(elapsed);
                if r {
                    ready += 1;
                }
                cancelled |= c;
            }
            TaskletStep::Exhausted => break,
            TaskletStep::FirstRun => panic!("only the first poll starts the timer"),
        }
    }
    assert_eq!(ready, 3);
    assert!(cancelled);
    assert!(t.is_exhausted());
    assert_eq!(t.is_ready(), TaskletStep::Exhausted);
    t.reset();
    assert!(!t.is_exhausted());
    assert_eq!(t.is_ready(), TaskletStep::FirstRun);
}

#[test]
fn unbounded_tasklet_never_exhausts() {
    let mut t = Tasklet::new(1, 0);
    assert_eq!(t.is_ready(), TaskletStep::FirstRun);
    for _ in 0..100 {
        assert_eq!(t.is_ready(), TaskletStep::CheckTimer);
        assert_eq!(t.on_timer(true), (true, false));
    }
    assert!(!t.is_exhausted());
}

#[test]
fn pwm_dividers() {
    // 125 MHz, 50 Hz, top 65535: 125e6*16/(50*65536) = 610.35 -> 610
    assert_eq!(calculate_pwm_dividers(125_000_000, 50, 65535, false), (38, 2));
    // phase correct halves the counter rate
    assert_eq!(calculate_pwm_dividers(125_000_000, 25, 65535, true), (38, 2));
    // clamped low and high
    assert_eq!(calculate_pwm_dividers(125_000_000, 1_000_000, 999, false), (1, 0));
    assert_eq!(calculate_pwm_dividers(125_000_000, 1, 65535, false), (255, 15));
}

#[test]
fn duty_from_pulse_width() {
    assert_eq!(calculate_duty_from_us(1500, 50, 65535), 4915);
    assert_eq!(calculate_duty_from_us(0, 50, 65535), 0);
    assert_eq!(calculate_duty_from_us(1500, 0, 65535), 0);
    assert_eq!(calculate_duty_from_us(30000, 50, 1000), 1000);
    // 10 Hz: the period of 100000 us is scaled down by 2
    assert_eq!(calculate_duty_from_us(25000, 10, 1000), 250);
}

#[test]
fn pwm_routes() {
    let mut p = PwmAliases::new();
    p.register(6);
    p.register(21);
    assert_eq!(p.get_pwm_slice_id_by_gpio(6), Ok((3, Channel::A)));
    assert_eq!(p.get_pwm_slice_id_by_gpio(21), Ok((2, Channel::B)));
    assert_eq!(p.get_pwm_slice_id_by_gpio(7), Err(ConfigError::GpioNotFound));
}

#[test]
fn log_levels() {
    let mut l = Log::new();
    assert_eq!(l.get(), LogLevel::Trace);
    l.set(LogLevel::Warn);
    assert_eq!(l.get_as_u8(), 2);
    assert_eq!(l.get(), LogLevel::Warn);
    assert_eq!(LogLevel::from(9u8), LogLevel::Trace);
    assert_eq!(u8::from(LogLevel::Info), 3);
    assert_eq!(LogLevel::Error.tag(), "[ERROR]");
}

#[test]
fn pin_handles() {
    let mut pins: IoPins<u32> = IoPins::new();
    assert_eq!(pins.get(30), Err(ConfigError::OutOfBounds));
    assert_eq!(pins.get(3), Err(ConfigError::GpioNotFound));
    pins.register(3, 77);
    *pins.get(3).unwrap() += 1;
    assert_eq!(pins.get(3), Ok(&mut 78));
    assert_eq!(pins.get_by_gpio_id(3), Some(&mut 78));
    assert_eq!(pins.get_by_gpio_id(31), None);
}

#[test]
fn program_starts_idle() {
    let p = Program::new();
    assert!(!p.command_read);
    assert!(p.command_buf.is_empty());
    let _ = State::new();
    assert_eq!(DhtError::Checksum.message(), "invalid data");
}
