use pico_cli::config::{definition_is_valid, Config, ConfigError, Def, Group, PinId};
use pico_cli::pin_config::pin_definition;

fn board() -> Config {
    let defs = pin_definition();
    assert!(definition_is_valid(&defs));
    Config::new(&defs)
}

#[test]
fn board_table_keeps_wired_pins() {
    let c = board();
    assert_eq!(c.pins.len(), 21);
    assert_eq!(c.pins[0].alias, "ADC0");
    assert_eq!(c.pins[0].id, 26);
    assert!(c.pins.iter().all(|p| !p.taken));
}

#[test]
fn led_resolves_through_its_alias() {
    let c = board();
    assert_eq!(c.get_gpio_alias_pair(None, Some("LED")), Ok((25, "LED")));
    assert_eq!(c.get_gpio_alias_pair(None, Some("led")), Ok((25, "LED")));
    assert!(c.pins.iter().all(|p| !p.taken));
}

#[test]
fn alias_and_id_lookups() {
    let c = board();
    assert_eq!(c.get_gpio("led"), Ok(25));
    assert_eq!(c.get_gpio("LED"), Ok(25));
    assert_eq!(c.get_gpio("nope"), Err(ConfigError::AliasNotFound));
    assert_eq!(c.get_alias(25), Ok("LED"));
    assert_eq!(c.get_alias(7), Err(ConfigError::GpioNotFound));
    assert_eq!(c.get_group_type(26), Some(Group::Adc));
    assert_eq!(c.get_group_type(7), None);
    assert_eq!(c.get_pin_def_by_gpio(0).unwrap().alias, "OUT_A");
    assert_eq!(c.get_pin_def_by_alias("button").unwrap().id, 23);
    assert!(matches!(c.get_pin_def_by_alias("x"), Err(ConfigError::AliasNotFound)));
    assert_eq!(c.get_group_iter(Group::Adc), vec![26, 27, 28, 29]);
    assert_eq!(c.get_group_iter(Group::Outputs), vec![0, 1, 3, 25]);
}

#[test]
fn alias_pair_prefers_the_number() {
    let c = board();
    assert_eq!(c.get_gpio_alias_pair(Some(25), Some("OUT_A")), Ok((25, "LED")));
    assert_eq!(c.get_gpio_alias_pair(None, Some("out_a")), Ok((0, "OUT_A")));
    assert_eq!(c.get_gpio_alias_pair(Some(7), None), Err(ConfigError::GpioNotFound));
    assert_eq!(c.get_gpio_alias_pair(None, Some("zzz")), Err(ConfigError::AliasNotFound));
    assert_eq!(c.get_gpio_alias_pair(None, None), Err(ConfigError::GpioNotFound));
}

#[test]
fn a_pin_is_claimed_once() {
    let mut c = board();
    for id in c.get_group_iter(Group::Outputs) {
        assert_eq!(c.take_pin(id), Some(id));
        assert_eq!(c.take_pin(id), None);
    }
    assert_eq!(c.take_pin(7), None);
}

#[test]
fn claims_do_not_depend_on_order() {
    let mut a = board();
    let mut b = board();
    assert_eq!(a.take_pin(25), Some(25));
    assert_eq!(a.take_pin(0), Some(0));
    assert_eq!(b.take_pin(0), Some(0));
    assert_eq!(b.take_pin(25), Some(25));
    assert_eq!(a.take_pin(25), None);
    assert_eq!(b.take_pin(25), None);
}

#[test]
fn claim_by_alias() {
    let mut c = board();
    assert_eq!(c.take_pin_by_alias("Led"), Ok(25));
    assert_eq!(c.take_pin_by_alias("LED"), Err(ConfigError::PinAlreadyConfigured));
    assert_eq!(c.take_pin(25), None);
    assert_eq!(c.take_pin_by_alias("nothing"), Err(ConfigError::AliasNotFound));
}

#[test]
fn invalid_definitions_are_detected() {
    let dup = [
        Def { alias: "A", id: PinId::Gpio(3), group: Group::Inputs },
        Def { alias: "B", id: PinId::NA, group: Group::Inputs },
        Def { alias: "C", id: PinId::Gpio(3), group: Group::Outputs },
    ];
    assert!(!definition_is_valid(&dup));
    let out = [Def { alias: "A", id: PinId::Gpio(30), group: Group::Inputs }];
    assert!(!definition_is_valid(&out));
    let fine = [
        Def { alias: "A", id: PinId::Gpio(29), group: Group::Inputs },
        Def { alias: "B", id: PinId::NA, group: Group::Inputs },
        Def { alias: "C", id: PinId::NA, group: Group::Inputs },
    ];
    assert!(definition_is_valid(&fine));
    assert_eq!(Config::new(&fine).pins.len(), 1);
}
