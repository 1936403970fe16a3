use std::str::FromStr;

use vedirect_link::device::{resolve, VeDirectDevice};
use vedirect_link::number::{parse_hex_u16, parse_i32};
use vedirect_link::register::{ParseRegisterError, Register};

#[test]
fn decodes_every_label_of_the_table() {
    assert_eq!(Register::from_str("V\t12560"), Ok(Register::MainVoltage(12560)));
    assert_eq!(Register::from_str("VS\t13012"), Ok(Register::AuxVoltage(13012)));
    assert_eq!(Register::from_str("VPV\t18540"), Ok(Register::PanelVoltage(18540)));
    assert_eq!(Register::from_str("PPV\t130"), Ok(Register::PanelPower(130)));
    assert_eq!(Register::from_str("I\t-126238"), Ok(Register::MainCurrent(-126238)));
    assert_eq!(Register::from_str("IL\t1500"), Ok(Register::LoadCurrent(1500)));
    assert_eq!(Register::from_str("P\t-798900"), Ok(Register::InstantaneousPower(-798900)));
    assert_eq!(Register::from_str("CE\t-5000"), Ok(Register::ConsumedAmpHours(-5000)));
    assert_eq!(Register::from_str("SOC\t876"), Ok(Register::StateOfCharge(876)));
    assert_eq!(Register::from_str("AC_OUT_V\t23001"), Ok(Register::ACOutputVoltage(23001)));
    assert_eq!(Register::from_str("AC_OUT_S\t250"), Ok(Register::ACOutputApparentPower(250)));
    assert_eq!(Register::from_str("MPPT\t2"), Ok(Register::TrackerOperationMode()));
    assert_eq!(Register::from_str("MON\t0"), Ok(Register::DcMonitorMode()));
    assert_eq!(Register::from_str("PID\t0xA056"), Ok(Register::Pid(0xA056)));
}

#[test]
fn scales_follow_the_table() {
    assert_eq!(Register::MainVoltage(0).scale(), 1000);
    assert_eq!(Register::AuxVoltage(0).scale(), 1000);
    assert_eq!(Register::PanelVoltage(0).scale(), 1000);
    assert_eq!(Register::PanelPower(0).scale(), 1);
    assert_eq!(Register::MainCurrent(0).scale(), 1000);
    assert_eq!(Register::LoadCurrent(0).scale(), 1000);
    assert_eq!(Register::InstantaneousPower(0).scale(), 1000);
    assert_eq!(Register::ConsumedAmpHours(0).scale(), 1000);
    assert_eq!(Register::StateOfCharge(0).scale(), 10);
    assert_eq!(Register::ACOutputVoltage(0).scale(), 100);
    assert_eq!(Register::ACOutputApparentPower(0).scale(), 1);
    assert_eq!(Register::TrackerOperationMode().scale(), 1);
    assert_eq!(Register::DcMonitorMode().scale(), 1);
    assert_eq!(Register::Pid(7).scale(), 1);
}

#[test]
fn scaled_values_come_out_in_physical_units() {
    let volts = Register::from_str("V\t12560").unwrap();
    assert_eq!(volts.reading().unwrap() as f32 / volts.scale() as f32, 12.56f32);
    let charge = Register::from_str("SOC\t500").unwrap();
    assert_eq!(charge.reading().unwrap() as f32 / charge.scale() as f32, 50.0f32);
    let ac = Register::from_str("AC_OUT_V\t23001").unwrap();
    assert_eq!(ac.reading().unwrap() as f32 / ac.scale() as f32, 230.01f32);
    let watts = Register::from_str("PPV\t130").unwrap();
    assert_eq!(watts.reading().unwrap() as f32 / watts.scale() as f32, 130.0f32);
}

#[test]
fn markers_and_product_id_carry_no_reading() {
    assert_eq!(Register::TrackerOperationMode().reading(), None);
    assert_eq!(Register::DcMonitorMode().reading(), None);
    assert_eq!(Register::Pid(0xA056).reading(), None);
    assert_eq!(Register::MainCurrent(-3).reading(), Some(-3));
}

#[test]
fn unknown_label_is_refused() {
    assert_eq!(Register::from_str("BOGUS\tx"), Err(ParseRegisterError));
    assert_eq!(Register::from_str("v\t12560"), Err(ParseRegisterError));
    assert_eq!(Register::from_str("H1\t-5"), Err(ParseRegisterError));
    assert_eq!(Register::from_str("\t12560"), Err(ParseRegisterError));
}

#[test]
fn field_needs_exactly_one_tab() {
    assert_eq!(Register::from_str("V12560"), Err(ParseRegisterError));
    assert_eq!(Register::from_str(""), Err(ParseRegisterError));
    assert_eq!(Register::from_str("V\t12\t560"), Err(ParseRegisterError));
    assert_eq!(Register::from_str("MPPT\t2\t"), Err(ParseRegisterError));
    assert_eq!(Register::from_str("\tV\t1"), Err(ParseRegisterError));
}

#[test]
fn value_must_be_an_integer() {
    assert_eq!(Register::from_str("V\t"), Err(ParseRegisterError));
    assert_eq!(Register::from_str("V\t12.5"), Err(ParseRegisterError));
    assert_eq!(Register::from_str("V\t 12"), Err(ParseRegisterError));
    assert_eq!(Register::from_str("V\t12a"), Err(ParseRegisterError));
    assert_eq!(Register::from_str("V\t-"), Err(ParseRegisterError));
    assert_eq!(Register::from_str("V\t+"), Err(ParseRegisterError));
    assert_eq!(Register::from_str("V\t--1"), Err(ParseRegisterError));
    assert_eq!(Register::from_str("V\tOFF"), Err(ParseRegisterError));
}

#[test]
fn markers_take_any_value() {
    assert_eq!(Register::from_str("MPPT\t"), Ok(Register::TrackerOperationMode()));
    assert_eq!(Register::from_str("MON\tanything"), Ok(Register::DcMonitorMode()));
}

#[test]
fn product_id_skips_two_bytes_and_reads_hex() {
    assert_eq!(Register::from_str("PID\t0xa38a"), Ok(Register::Pid(0xA38A)));
    assert_eq!(Register::from_str("PID\t0x0000"), Ok(Register::Pid(0)));
    assert_eq!(Register::from_str("PID\t0xFFFF"), Ok(Register::Pid(0xFFFF)));
    assert_eq!(Register::from_str("PID\t0x00A056"), Ok(Register::Pid(0xA056)));
    assert_eq!(Register::from_str("PID\t??1f"), Ok(Register::Pid(0x1F)));
    assert_eq!(Register::from_str("PID\t0x"), Err(ParseRegisterError));
    assert_eq!(Register::from_str("PID\t0"), Err(ParseRegisterError));
    assert_eq!(Register::from_str("PID\t"), Err(ParseRegisterError));
    assert_eq!(Register::from_str("PID\t0x10000"), Err(ParseRegisterError));
    assert_eq!(Register::from_str("PID\t0xA0G6"), Err(ParseRegisterError));
    assert_eq!(Register::from_str("PID\t0x+A056"), Err(ParseRegisterError));
}

#[test]
fn bytes_that_are_no_text_are_refused_without_panic() {
    assert_eq!(Register::from_bytes(&[0xFF, 0x09, 0x31]), Err(ParseRegisterError));
    assert_eq!(Register::from_bytes(&[0x56, 0x09, 0xC3, 0x28]), Err(ParseRegisterError));
    assert_eq!(Register::from_bytes(&[0x50, 0x49, 0x44, 0x09, 0xC3, 0xA9, 0x31]), Ok(Register::Pid(1)));
    assert_eq!(Register::from_bytes(b"V\t1"), Ok(Register::MainVoltage(1)));
}

#[test]
fn decode_takes_label_and_value_apart() {
    assert_eq!(Register::decode(b"SOC", b"1000"), Some(Register::StateOfCharge(1000)));
    assert_eq!(Register::decode(b"SOC", b""), None);
    assert_eq!(Register::decode(b"SO", b"1000"), None);
    assert_eq!(Register::decode(b"AC_OUT_V", b"-1"), Some(Register::ACOutputVoltage(-1)));
    assert_eq!(Register::decode(b"AC_OUT_X", b"1"), None);
}

#[test]
fn decimal_grammar_and_range() {
    assert_eq!(parse_i32(b"0"), Some(0));
    assert_eq!(parse_i32(b"007"), Some(7));
    assert_eq!(parse_i32(b"+42"), Some(42));
    assert_eq!(parse_i32(b"-42"), Some(-42));
    assert_eq!(parse_i32(b"-0"), Some(0));
    assert_eq!(parse_i32(b"2147483647"), Some(i32::MAX));
    assert_eq!(parse_i32(b"-2147483648"), Some(i32::MIN));
    assert_eq!(parse_i32(b"2147483648"), None);
    assert_eq!(parse_i32(b"+2147483648"), None);
    assert_eq!(parse_i32(b"-2147483649"), None);
    assert_eq!(parse_i32(b"99999999999999999999"), None);
    assert_eq!(parse_i32(b"00000000000000012560"), Some(12560));
    assert_eq!(parse_i32(b""), None);
    assert_eq!(parse_i32(b"1 "), None);
    assert_eq!(parse_i32(b"1-"), None);
    assert_eq!(parse_i32(b"3000000000x"), None);
}

#[test]
fn hexadecimal_grammar_and_range() {
    assert_eq!(parse_hex_u16(b"0"), Some(0));
    assert_eq!(parse_hex_u16(b"a"), Some(10));
    assert_eq!(parse_hex_u16(b"F"), Some(15));
    assert_eq!(parse_hex_u16(b"A2E9"), Some(0xA2E9));
    assert_eq!(parse_hex_u16(b"ffff"), Some(0xFFFF));
    assert_eq!(parse_hex_u16(b"0000ffff"), Some(0xFFFF));
    assert_eq!(parse_hex_u16(b"10000"), None);
    assert_eq!(parse_hex_u16(b""), None);
    assert_eq!(parse_hex_u16(b"g"), None);
    assert_eq!(parse_hex_u16(b"-1"), None);
    assert_eq!(parse_hex_u16(b"0x10"), None);
    assert_eq!(parse_hex_u16(b"FFFFFFFFFFz"), None);
}

#[test]
fn product_ids_name_their_device_class() {
    assert_eq!(Register::from_str("PID\t0xA056"), Ok(Register::Pid(0xA056)));
    assert_eq!(VeDirectDevice::from_pid(0xA056), Some(VeDirectDevice::SmartSolarMppt));
    assert_eq!(Register::from_str("PID\t0xA38A"), Ok(Register::Pid(0xA38A)));
    assert_eq!(VeDirectDevice::from_pid(0xA38A), Some(VeDirectDevice::SmartShunt));
    assert_eq!(Register::from_str("PID\t0x0000"), Ok(Register::Pid(0)));
    assert_eq!(VeDirectDevice::from_pid(0x0000), None);
}

#[test]
fn device_table_edges() {
    assert_eq!(VeDirectDevice::from_pid(0xA388), None);
    assert_eq!(VeDirectDevice::from_pid(0xA389), Some(VeDirectDevice::SmartShunt));
    assert_eq!(VeDirectDevice::from_pid(0xA38B), Some(VeDirectDevice::SmartShunt));
    assert_eq!(VeDirectDevice::from_pid(0xA38C), None);
    assert_eq!(VeDirectDevice::from_pid(0xA2E9), Some(VeDirectDevice::PhoenixInverter));
    assert_eq!(VeDirectDevice::from_pid(0xA055), None);
    assert_eq!(VeDirectDevice::from_pid(0xA057), None);
    assert_eq!(VeDirectDevice::from_pid(0xFFFF), None);
}

#[test]
fn known_class_is_sticky_and_unknown_can_be_upgraded() {
    assert_eq!(resolve(None, 0x0000), None);
    assert_eq!(resolve(None, 0xA2E9), Some(VeDirectDevice::PhoenixInverter));
    assert_eq!(
        resolve(Some(VeDirectDevice::PhoenixInverter), 0xA056),
        Some(VeDirectDevice::PhoenixInverter)
    );
    assert_eq!(
        resolve(Some(VeDirectDevice::SmartShunt), 0x0000),
        Some(VeDirectDevice::SmartShunt)
    );
    let once = resolve(None, 0xA056);
    assert_eq!(resolve(once, 0xA056), once);
}
