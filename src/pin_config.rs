//! The board's pin definition: every role the firmware knows, with the pin
//! wired to it or none.

use vstd::prelude::*;
use crate::config::{Def, Group, PinId, valid_definition};

verus! {

/// Number of roles in the board's definition.
pub const PIN_ROLES: usize = 51;

/// The board's pin definition, in table order.
pub open spec fn board_definition() -> Seq<Def> {
    seq![
            Def { alias: "ADC0", id: PinId::Gpio(26), group: Group::Adc },
            Def { alias: "ADC1", id: PinId::Gpio(27), group: Group::Adc },
            Def { alias: "ADC2", id: PinId::Gpio(28), group: Group::Adc },
            Def { alias: "ADC3", id: PinId::Gpio(29), group: Group::Adc },
            Def { alias: "PWM0_A", id: PinId::NA, group: Group::Pwm },
            Def { alias: "PWM0_B", id: PinId::NA, group: Group::Pwm },
            Def { alias: "PWM1_A", id: PinId::NA, group: Group::Pwm },
            Def { alias: "PWM1_B", id: PinId::NA, group: Group::Pwm },
            Def { alias: "PWM2_A", id: PinId::NA, group: Group::Pwm },
            Def { alias: "PWM2_B", id: PinId::Gpio(21), group: Group::Pwm },
            Def { alias: "PWM3_A", id: PinId::Gpio(6), group: Group::Pwm },
            Def { alias: "PWM3_B", id: PinId::NA, group: Group::Pwm },
            Def { alias: "PWM4_A", id: PinId::Gpio(8), group: Group::Pwm },
            Def { alias: "PWM4_B", id: PinId::NA, group: Group::Pwm },
            Def { alias: "PWM5_A", id: PinId::NA, group: Group::Pwm },
            Def { alias: "PWM5_B", id: PinId::NA, group: Group::Pwm },
            Def { alias: "PWM6_A", id: PinId::NA, group: Group::Pwm },
            Def { alias: "PWM6_B", id: PinId::NA, group: Group::Pwm },
            Def { alias: "PWM7_A", id: PinId::NA, group: Group::Pwm },
            Def { alias: "PWM7_B", id: PinId::NA, group: Group::Pwm },
            Def { alias: "I2C0_SDA", id: PinId::Gpio(2), group: Group::I2c },
            Def { alias: "I2C0_SCL", id: PinId::NA, group: Group::I2c },
            Def { alias: "I2C1_SDA", id: PinId::NA, group: Group::I2c },
            Def { alias: "I2C1_SCL", id: PinId::NA, group: Group::I2c },
            Def { alias: "SPI0_RX", id: PinId::Gpio(4), group: Group::Spi },
            Def { alias: "SPI0_TX", id: PinId::NA, group: Group::Spi },
            Def { alias: "SPI0_SCK", id: PinId::NA, group: Group::Spi },
            Def { alias: "SPI0_CSN", id: PinId::NA, group: Group::Spi },
            Def { alias: "SPI1_RX", id: PinId::NA, group: Group::Spi },
            Def { alias: "SPI1_TX", id: PinId::NA, group: Group::Spi },
            Def { alias: "SPI1_SCK", id: PinId::NA, group: Group::Spi },
            Def { alias: "SPI1_CSN", id: PinId::NA, group: Group::Spi },
            Def { alias: "UART0_TX", id: PinId::Gpio(5), group: Group::Uart },
            Def { alias: "UART0_CTS", id: PinId::NA, group: Group::Uart },
            Def { alias: "UART0_RX", id: PinId::NA, group: Group::Uart },
            Def { alias: "UART0_RTS", id: PinId::NA, group: Group::Uart },
            Def { alias: "UART1_TX", id: PinId::NA, group: Group::Uart },
            Def { alias: "UART1_RX", id: PinId::NA, group: Group::Uart },
            Def { alias: "UART1_CTS", id: PinId::NA, group: Group::Uart },
            Def { alias: "UART1_RTS", id: PinId::NA, group: Group::Uart },
            Def { alias: "IN_A", id: PinId::Gpio(9), group: Group::Inputs },
            Def { alias: "IN_B", id: PinId::Gpio(20), group: Group::Inputs },
            Def { alias: "IN_C", id: PinId::Gpio(22), group: Group::Inputs },
            Def { alias: "BUTTON", id: PinId::Gpio(23), group: Group::Inputs },
            Def { alias: "OUT_A", id: PinId::Gpio(0), group: Group::Outputs },
            Def { alias: "OUT_B", id: PinId::Gpio(1), group: Group::Outputs },
            Def { alias: "OUT_C", id: PinId::Gpio(3), group: Group::Outputs },
            Def { alias: "LED", id: PinId::Gpio(25), group: Group::Outputs },
            Def { alias: "DHT22", id: PinId::Gpio(16), group: Group::Other },
            Def { alias: "C1_IN_A", id: PinId::Gpio(10), group: Group::C1_Inputs },
            Def { alias: "C1_OUT_A", id: PinId::Gpio(11), group: Group::C1_Outputs },
    ]
}

/// The board's pin definition, in table order. Every wired pin number is
/// one of the chip's and none is wired twice.
pub fn pin_definition() -> (r: Vec<Def>)
    ensures
        r@ == board_definition(),
        r@.len() == PIN_ROLES,
        valid_definition(r@),
{
    let r = vec![
        Def { alias: "ADC0", id: PinId::Gpio(26), group: Group::Adc },
        Def { alias: "ADC1", id: PinId::Gpio(27), group: Group::Adc },
        Def { alias: "ADC2", id: PinId::Gpio(28), group: Group::Adc },
        Def { alias: "ADC3", id: PinId::Gpio(29), group: Group::Adc },
        Def { alias: "PWM0_A", id: PinId::NA, group: Group::Pwm },
        Def { alias: "PWM0_B", id: PinId::NA, group: Group::Pwm },
        Def { alias: "PWM1_A", id: PinId::NA, group: Group::Pwm },
        Def { alias: "PWM1_B", id: PinId::NA, group: Group::Pwm },
        Def { alias: "PWM2_A", id: PinId::NA, group: Group::Pwm },
        Def { alias: "PWM2_B", id: PinId::Gpio(21), group: Group::Pwm },
        Def { alias: "PWM3_A", id: PinId::Gpio(6), group: Group::Pwm },
        Def { alias: "PWM3_B", id: PinId::NA, group: Group::Pwm },
        Def { alias: "PWM4_A", id: PinId::Gpio(8), group: Group::Pwm },
        Def { alias: "PWM4_B", id: PinId::NA, group: Group::Pwm },
        Def { alias: "PWM5_A", id: PinId::NA, group: Group::Pwm },
        Def { alias: "PWM5_B", id: PinId::NA, group: Group::Pwm },
        Def { alias: "PWM6_A", id: PinId::NA, group: Group::Pwm },
        Def { alias: "PWM6_B", id: PinId::NA, group: Group::Pwm },
        Def { alias: "PWM7_A", id: PinId::NA, group: Group::Pwm },
        Def { alias: "PWM7_B", id: PinId::NA, group: Group::Pwm },
        Def { alias: "I2C0_SDA", id: PinId::Gpio(2), group: Group::I2c },
        Def { alias: "I2C0_SCL", id: PinId::NA, group: Group::I2c },
        Def { alias: "I2C1_SDA", id: PinId::NA, group: Group::I2c },
        Def { alias: "I2C1_SCL", id: PinId::NA, group: Group::I2c },
        Def { alias: "SPI0_RX", id: PinId::Gpio(4), group: Group::Spi },
        Def { alias: "SPI0_TX", id: PinId::NA, group: Group::Spi },
        Def { alias: "SPI0_SCK", id: PinId::NA, group: Group::Spi },
        Def { alias: "SPI0_CSN", id: PinId::NA, group: Group::Spi },
        Def { alias: "SPI1_RX", id: PinId::NA, group: Group::Spi },
        Def { alias: "SPI1_TX", id: PinId::NA, group: Group::Spi },
        Def { alias: "SPI1_SCK", id: PinId::NA, group: Group::Spi },
        Def { alias: "SPI1_CSN", id: PinId::NA, group: Group::Spi },
        Def { alias: "UART0_TX", id: PinId::Gpio(5), group: Group::Uart },
        Def { alias: "UART0_CTS", id: PinId::NA, group: Group::Uart },
        Def { alias: "UART0_RX", id: PinId::NA, group: Group::Uart },
        Def { alias: "UART0_RTS", id: PinId::NA, group: Group::Uart },
        Def { alias: "UART1_TX", id: PinId::NA, group: Group::Uart },
        Def { alias: "UART1_RX", id: PinId::NA, group: Group::Uart },
        Def { alias: "UART1_CTS", id: PinId::NA, group: Group::Uart },
        Def { alias: "UART1_RTS", id: PinId::NA, group: Group::Uart },
        Def { alias: "IN_A", id: PinId::Gpio(9), group: Group::Inputs },
        Def { alias: "IN_B", id: PinId::Gpio(20), group: Group::Inputs },
        Def { alias: "IN_C", id: PinId::Gpio(22), group: Group::Inputs },
        Def { alias: "BUTTON", id: PinId::Gpio(23), group: Group::Inputs },
        Def { alias: "OUT_A", id: PinId::Gpio(0), group: Group::Outputs },
        Def { alias: "OUT_B", id: PinId::Gpio(1), group: Group::Outputs },
        Def { alias: "OUT_C", id: PinId::Gpio(3), group: Group::Outputs },
        Def { alias: "LED", id: PinId::Gpio(25), group: Group::Outputs },
        Def { alias: "DHT22", id: PinId::Gpio(16), group: Group::Other },
        Def { alias: "C1_IN_A", id: PinId::Gpio(10), group: Group::C1_Inputs },
        Def { alias: "C1_OUT_A", id: PinId::Gpio(11), group: Group::C1_Outputs },
    ];
    proof {
        assert(r@ =~= board_definition());
    }
    r
}

} // verus!
