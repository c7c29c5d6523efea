use touch_proxy::command::{get_command_type, halt_command, reset_command, stat_command, CommandType};

#[test]
fn reserved_literals_classify() {
    assert_eq!(get_command_type(&b"{HALT}".to_vec()), CommandType::Halt);
    assert_eq!(get_command_type(&b"{STAT}".to_vec()), CommandType::Stat);
    assert_eq!(get_command_type(&b"{RSET}".to_vec()), CommandType::Reset);
}

#[test]
fn other_content_is_config() {
    assert_eq!(get_command_type(&Vec::new()), CommandType::Config);
    assert_eq!(get_command_type(&b"{HALT}x".to_vec()), CommandType::Config);
    assert_eq!(get_command_type(&b"{halt}".to_vec()), CommandType::Config);
    assert_eq!(get_command_type(&b"{HAL".to_vec()), CommandType::Config);
    assert_eq!(get_command_type(&b"{cfgX}".to_vec()), CommandType::Config);
}

#[test]
fn command_bytes() {
    assert_eq!(halt_command(), b"{HALT}".to_vec());
    assert_eq!(reset_command(), b"{RSET}".to_vec());
    assert_eq!(stat_command(), b"{STAT}".to_vec());
}
