use vstd::prelude::*;
use crate::bytes::bytes_equal;

verus! {

/// The largest command frame that the display link sends.
pub const MAX_MESSAGE_SIZE: usize = 6;

/// `{HALT}`: ends a streaming session.
pub open spec fn halt_literal() -> Seq<u8> {
    seq![123u8, 72u8, 65u8, 76u8, 84u8, 125u8]
}

/// `{RSET}`: resets the sensor.
pub open spec fn reset_literal() -> Seq<u8> {
    seq![123u8, 82u8, 83u8, 69u8, 84u8, 125u8]
}

/// `{STAT}`: starts a streaming session.
pub open spec fn stat_literal() -> Seq<u8> {
    seq![123u8, 83u8, 84u8, 65u8, 84u8, 125u8]
}

/// The bytes of `{HALT}`.
pub fn halt_command() -> (r: Vec<u8>)
    ensures
        r@ == halt_literal(),
{
    let r = vec![123u8, 72u8, 65u8, 76u8, 84u8, 125u8];
    assert(r@ =~= halt_literal());
    r
}

/// The bytes of `{RSET}`.
pub fn reset_command() -> (r: Vec<u8>)
    ensures
        r@ == reset_literal(),
{
    let r = vec![123u8, 82u8, 83u8, 69u8, 84u8, 125u8];
    assert(r@ =~= reset_literal());
    r
}

/// The bytes of `{STAT}`.
pub fn stat_command() -> (r: Vec<u8>)
    ensures
        r@ == stat_literal(),
{
    let r = vec![123u8, 83u8, 84u8, 65u8, 84u8, 125u8];
    assert(r@ =~= stat_literal());
    r
}

/// What a complete display-link frame asks for.
#[derive(Clone, Copy, Debug, PartialEq, Eq, Structural)]
pub enum CommandType {
    Halt,
    Stat,
    Reset,
    Config,
}

/// The command that a frame's bytes stand for: exact matches of the three
/// reserved literals, and configuration for anything else.
pub open spec fn command_of(frame: Seq<u8>) -> CommandType {
    if frame == halt_literal() {
        CommandType::Halt
    } else if frame == stat_literal() {
        CommandType::Stat
    } else if frame == reset_literal() {
        CommandType::Reset
    } else {
        CommandType::Config
    }
}

/// Classifies a frame by byte-exact comparison with the reserved literals.
pub fn get_command_type(buffer: &Vec<u8>) -> (r: CommandType)
    ensures
        r == command_of(buffer@),
        (r == CommandType::Halt) <==> buffer@ == halt_literal(),
        (r == CommandType::Stat) <==> buffer@ == stat_literal(),
        (r == CommandType::Reset) <==> buffer@ == reset_literal(),
        (r == CommandType::Config) <==> (buffer@ != halt_literal() && buffer@ != stat_literal()
            && buffer@ != reset_literal()),
{
    let halt = halt_command();
    let stat = stat_command();
    let reset = reset_command();
    proof {
        assert(halt_literal()[1] != stat_literal()[1]);
        assert(halt_literal()[1] != reset_literal()[1]);
        assert(stat_literal()[1] != reset_literal()[1]);
    }
    if bytes_equal(buffer.as_slice(), halt.as_slice()) {
        CommandType::Halt
    } else if bytes_equal(buffer.as_slice(), stat.as_slice()) {
        CommandType::Stat
    } else if bytes_equal(buffer.as_slice(), reset.as_slice()) {
        CommandType::Reset
    } else {
        CommandType::Config
    }
}

} // verus!
